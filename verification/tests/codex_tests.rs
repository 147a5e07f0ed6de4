use opencodex::codex::{
    attempt_failure_message, backend_args, backend_kind, build_full_prompt, codex_args,
    collect_response, configure_execution, is_ai_supported, is_retryable_resume_error,
    is_valid_session_id, omx_args, pending_done_message, process_stream_line,
    should_retry_without_resume, ai_binary_name, AttemptProgress, BackendKind, CancelToken,
    CodexResponse, ExecutionOptions, StreamingAttemptOutcome,
};
use opencodex::events::StreamMessage;

#[test]
fn test_session_id_valid() {
    assert!(is_valid_session_id("abc123"));
    assert!(is_valid_session_id("session-1"));
    assert!(is_valid_session_id("session_2"));
    assert!(is_valid_session_id("019c85d5-1ead-7011-8693-c2d63bef2311"));
}

#[test]
fn test_session_id_rejections() {
    assert!(!is_valid_session_id(""));
    assert!(!is_valid_session_id("a b"));
    assert!(!is_valid_session_id("session/../hack"));
    assert!(!is_valid_session_id(&"a".repeat(65)));
}

#[test]
fn test_retryable_resume_error_positive_patterns() {
    assert!(is_retryable_resume_error("Error: invalid value for '--resume <SESSION_ID>'"));
    assert!(is_retryable_resume_error("thread not found for resume id abc123"));
    assert!(is_retryable_resume_error("Failed to resume session: does not exist"));
}

#[test]
fn test_retryable_resume_error_negative_patterns() {
    assert!(!is_retryable_resume_error("network timeout while contacting API"));
    assert!(!is_retryable_resume_error("permission denied while writing file"));
}

#[test]
fn test_is_ai_supported() {
    assert!(is_ai_supported());
}

#[test]
fn test_codex_response_error_struct() {
    let response = CodexResponse {
        success: false,
        response: None,
        session_id: None,
        error: Some("error".to_string()),
    };
    assert!(!response.success);
    assert_eq!(response.error.as_deref(), Some("error"));
}

#[test]
fn test_codex_response_success_struct() {
    let response = CodexResponse {
        success: true,
        response: Some("ok".to_string()),
        session_id: Some("thread-1".to_string()),
        error: None,
    };
    assert!(response.success);
    assert_eq!(response.response.as_deref(), Some("ok"));
    assert_eq!(response.session_id.as_deref(), Some("thread-1"));
    assert!(response.error.is_none());
}

#[test]
fn test_backend_kind_defaults_to_codex() {
    let opts = ExecutionOptions::default();
    assert_eq!(backend_kind(&opts), BackendKind::Codex);
    assert_eq!(ai_binary_name(BackendKind::Codex), "codex");
}

#[test]
fn test_backend_kind_omx_when_configured() {
    let opts = configure_execution(true, false);
    assert_eq!(backend_kind(&opts), BackendKind::Omx);
    assert_eq!(ai_binary_name(BackendKind::Omx), "omx");
}

#[test]
fn test_codex_args_default_session() {
    let opts = ExecutionOptions::default();
    let args = codex_args(&opts, None, "/tmp/project").expect("args should build");
    assert_eq!(
        args,
        vec![
            "-C",
            "/tmp/project",
            "--sandbox",
            "danger-full-access",
            "-a",
            "never",
            "exec",
            "--json",
            "--skip-git-repo-check",
            "-",
        ]
    );
}

#[test]
fn test_codex_args_resume_session() {
    let opts = ExecutionOptions::default();
    let args = codex_args(&opts, Some("session-1"), "/tmp/project").expect("args should build");
    assert_eq!(
        args,
        vec![
            "-C",
            "/tmp/project",
            "--sandbox",
            "danger-full-access",
            "-a",
            "never",
            "exec",
            "resume",
            "session-1",
            "--json",
            "-",
        ]
    );
}

#[test]
fn test_omx_args_default_session() {
    let opts = ExecutionOptions::default();
    let args = omx_args(&opts, None, "/tmp/project").expect("args should build");
    assert_eq!(
        args,
        vec![
            "--cd",
            "/tmp/project",
            "--sandbox",
            "danger-full-access",
            "-a",
            "never",
            "exec",
            "--json",
            "--skip-git-repo-check",
            "-",
        ]
    );
}

#[test]
fn test_omx_args_resume_session() {
    let opts = ExecutionOptions::default();
    let args = omx_args(&opts, Some("session-1"), "/tmp/project").expect("args should build");
    assert_eq!(
        args,
        vec![
            "--cd",
            "/tmp/project",
            "--sandbox",
            "danger-full-access",
            "-a",
            "never",
            "exec",
            "resume",
            "session-1",
            "--json",
            "-",
        ]
    );
}

#[test]
fn test_backend_args_dispatch() {
    let opts = ExecutionOptions::default();
    let codex = backend_args(BackendKind::Codex, &opts, None, "/tmp/project")
        .expect("codex args should build");
    assert!(codex.contains(&"exec".to_string()));

    let omx = backend_args(BackendKind::Omx, &opts, Some("session-1"), "/tmp/project")
        .expect("omx args should build");
    assert!(omx.contains(&"exec".to_string()));
    assert!(omx.contains(&"resume".to_string()));
}

#[test]
fn test_codex_args_madmax_flag() {
    let opts = configure_execution(false, true);
    let args = codex_args(&opts, None, "/w").expect("args should build");
    assert!(args.contains(&"--dangerously-bypass-approvals-and-sandbox".to_string()));
    let omx = omx_args(&opts, None, "/w").expect("args should build");
    assert!(omx.contains(&"--madmax".to_string()));
}

#[test]
fn test_args_reject_invalid_session() {
    let opts = ExecutionOptions::default();
    let err = codex_args(&opts, Some("bad id"), "/w");
    assert_eq!(err, Err("Invalid session ID format".to_string()));
    let err2 = omx_args(&opts, Some("a/../b"), "/w");
    assert_eq!(err2, Err("Invalid session ID format".to_string()));
}

#[test]
fn test_cancel_token_starts_idle() {
    let t = CancelToken::new();
    assert!(!t.cancelled);
    assert!(t.child_pid.is_none());
}

#[test]
fn test_build_full_prompt_with_defaults() {
    let p = build_full_prompt("do the thing", None, None);
    assert!(p.starts_with("SYSTEM:\nYou are a terminal coding assistant"));
    assert!(p.ends_with("\n\ndo the thing"));
}

#[test]
fn test_build_full_prompt_suppressed_system() {
    let p = build_full_prompt("just this", Some(""), None);
    assert_eq!(p, "just this");
}

#[test]
fn test_build_full_prompt_with_tools() {
    let tools = vec!["Bash".to_string(), "Read".to_string()];
    let p = build_full_prompt("task", Some("SYS"), Some(&tools));
    assert_eq!(
        p,
        "SYSTEM:\nSYS\n\nTOOL CONSTRAINT:\nOnly use the following tools when needed: Bash, Read\n\ntask"
    );
}

#[test]
fn test_process_stream_line_tracks_session_and_done() {
    let mut progress = AttemptProgress::new();
    let out1 = process_stream_line(
        &mut progress,
        "{\"type\":\"thread.started\",\"thread_id\":\"t-9\"}",
    );
    assert_eq!(out1.len(), 1);
    assert_eq!(progress.last_session_id.as_deref(), Some("t-9"));
    assert!(!progress.done_sent);
    assert_eq!(progress.emitted_message_count, 1);

    let out2 = process_stream_line(&mut progress, "{\"type\":\"turn.completed\"}");
    assert_eq!(out2.len(), 1);
    assert!(progress.done_sent);
    match &out2[0] {
        StreamMessage::Done { result, session_id } => {
            assert_eq!(result, "");
            assert_eq!(session_id.as_deref(), Some("t-9"));
        }
        _ => panic!("expected done message"),
    }
}

#[test]
fn test_process_stream_line_skips_noise() {
    let mut progress = AttemptProgress::new();
    assert!(process_stream_line(&mut progress, "   ").is_empty());
    assert!(process_stream_line(&mut progress, "not json at all").is_empty());
    assert_eq!(progress.emitted_message_count, 0);
}

#[test]
fn test_should_retry_only_on_stale_resume() {
    let outcome = StreamingAttemptOutcome {
        done_sent: false,
        last_session_id: None,
        status_success: false,
        status_code: Some(1),
        stderr_output: "thread not found".to_string(),
        emitted_message_count: 0,
    };
    assert!(should_retry_without_resume(&outcome, true, false));
    assert!(!should_retry_without_resume(&outcome, false, false));
    assert!(!should_retry_without_resume(&outcome, true, true));

    let noisy = StreamingAttemptOutcome { emitted_message_count: 3, ..outcome };
    assert!(!should_retry_without_resume(&noisy, true, false));
}

#[test]
fn test_attempt_failure_message_prefers_stderr() {
    let outcome = StreamingAttemptOutcome {
        done_sent: true,
        last_session_id: None,
        status_success: false,
        status_code: Some(2),
        stderr_output: "  boom happened  ".to_string(),
        emitted_message_count: 1,
    };
    assert_eq!(attempt_failure_message(&outcome, "codex").as_deref(), Some("boom happened"));

    let silent = StreamingAttemptOutcome { stderr_output: "   ".to_string(), ..outcome };
    assert_eq!(
        attempt_failure_message(&silent, "codex").as_deref(),
        Some("codex exited with code Some(2)")
    );

    let no_code = StreamingAttemptOutcome {
        status_code: None,
        stderr_output: String::new(),
        done_sent: true,
        last_session_id: None,
        status_success: false,
        emitted_message_count: 1,
    };
    assert_eq!(
        attempt_failure_message(&no_code, "omx").as_deref(),
        Some("omx exited with code None")
    );

    let ok = StreamingAttemptOutcome { status_success: true, ..no_code };
    assert!(attempt_failure_message(&ok, "omx").is_none());
}

#[test]
fn test_pending_done_message() {
    let outcome = StreamingAttemptOutcome {
        done_sent: false,
        last_session_id: Some("s-1".to_string()),
        status_success: true,
        status_code: Some(0),
        stderr_output: String::new(),
        emitted_message_count: 2,
    };
    match pending_done_message(&outcome) {
        Some(StreamMessage::Done { result, session_id }) => {
            assert_eq!(result, "");
            assert_eq!(session_id.as_deref(), Some("s-1"));
        }
        _ => panic!("expected a synthesized done"),
    }
    let done = StreamingAttemptOutcome { done_sent: true, ..outcome };
    assert!(pending_done_message(&done).is_none());
}

#[test]
fn test_collect_response_success() {
    let msgs = vec![
        StreamMessage::Init { session_id: "sess-7".to_string() },
        StreamMessage::Text { content: "hello".to_string() },
        StreamMessage::Text { content: "world".to_string() },
        StreamMessage::Done { result: String::new(), session_id: None },
    ];
    let r = collect_response(&msgs, None);
    assert!(r.success);
    assert_eq!(r.response.as_deref(), Some("hello\nworld"));
    assert_eq!(r.session_id.as_deref(), Some("sess-7"));
    assert!(r.error.is_none());
}

#[test]
fn test_collect_response_error_and_fallback_result() {
    let msgs = vec![
        StreamMessage::Done { result: "final text".to_string(), session_id: None },
        StreamMessage::Error { message: "bad".to_string() },
    ];
    let r = collect_response(&msgs, Some("prior"));
    assert!(!r.success);
    assert_eq!(r.response.as_deref(), Some("final text"));
    assert_eq!(r.session_id.as_deref(), Some("prior"));
    assert_eq!(r.error.as_deref(), Some("bad"));
}
