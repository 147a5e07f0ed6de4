use opencodex::events::StreamMessage;
use opencodex::render::{
    apply_event, display_text, final_response, next_render_action, normalize_empty_lines,
    spinner_frame, stopped_response, truncate_str, RenderAction, TurnRender,
};
use opencodex::state::{default_allowed_tools, get_allowed_tools, BotSettings, RuntimeState};
use opencodex::storage::{saveable_history, select_session, token_hash};
use opencodex::session::{HistoryItem, HistoryType, SessionData};
use opencodex::tools::{format_tool_input, normalize_tool_name};

#[test]
fn test_admission_control_one_turn_per_chat() {
    let mut state = RuntimeState::new();
    assert!(!state.is_busy(7));
    assert!(state.try_begin_turn(7));
    assert!(state.is_busy(7));
    assert!(!state.try_begin_turn(7));
    assert!(state.try_begin_turn(8));
    state.finish_turn(7);
    assert!(!state.is_busy(7));
    assert!(state.try_begin_turn(7));
}

#[test]
fn test_cancel_turn_sets_flag_and_keeps_pid() {
    let mut state = RuntimeState::new();
    assert!(state.try_begin_turn(1));
    assert!(!state.is_cancelled(1));
    state.set_child_pid(1, 4242);
    let (had, pid) = state.cancel_turn(1);
    assert!(had);
    assert_eq!(pid, Some(4242));
    assert!(state.is_cancelled(1));
    let (had_none, _) = state.cancel_turn(99);
    assert!(!had_none);
}

#[test]
fn test_rate_limiter_is_monotonic_per_chat() {
    let mut state = RuntimeState::new();
    let gap = 3000;
    let s1 = state.reserve_api_slot(5, 10_000, gap);
    assert_eq!(s1, 10_000);
    // a racing task asks immediately afterwards with the same clock
    let s2 = state.reserve_api_slot(5, 10_000, gap);
    assert_eq!(s2, 13_000);
    let s3 = state.reserve_api_slot(5, 10_001, gap);
    assert_eq!(s3, 16_000);
    assert!(s2 - s1 >= gap && s3 - s2 >= gap);
    // a different chat is not delayed
    let other = state.reserve_api_slot(6, 10_000, gap);
    assert_eq!(other, 10_000);
    // after a long idle period the next call is served immediately
    let s4 = state.reserve_api_slot(5, 60_000, gap);
    assert_eq!(s4, 60_000);
}

fn seeded_state(chat: i64) -> RuntimeState {
    let mut state = RuntimeState::new();
    let mut session = opencodex::state::ChatSession::new();
    session.current_path = Some("/srv/project".to_string());
    state.sessions.insert(chat, session);
    state
}

#[test]
fn test_record_turn_appends_one_pair() {
    let mut state = seeded_state(3);
    let recorded = state.record_turn(
        3,
        "question".to_string(),
        "answer".to_string(),
        Some("sess-3".to_string()),
    );
    assert!(recorded);
    let s = state.sessions.get(&3).unwrap();
    assert_eq!(s.history.len(), 2);
    assert_eq!(s.history[0].content, "question");
    assert_eq!(s.history[1].content, "answer");
    assert_eq!(s.session_id.as_deref(), Some("sess-3"));
}

#[test]
fn test_record_turn_enforces_cap() {
    let mut state = seeded_state(3);
    for i in 0..53 {
        let recorded =
            state.record_turn(3, format!("u{i}"), format!("a{i}"), None);
        assert!(recorded);
    }
    let s = state.sessions.get(&3).unwrap();
    assert_eq!(s.history.len(), 100);
    // the three oldest exchanges were evicted
    assert_eq!(s.history[0].content, "u3");
    assert_eq!(s.history[99].content, "a52");
}

#[test]
fn test_clear_prevents_racing_history_append() {
    let mut state = seeded_state(4);
    assert!(state.try_begin_turn(4));
    // the user clears the session while the turn's render loop is mid-flight
    state.clear_session(4);
    assert!(!state.is_busy(4));
    let recorded = state.record_turn(
        4,
        "late user".to_string(),
        "late answer".to_string(),
        Some("stale".to_string()),
    );
    assert!(!recorded);
    let s = state.sessions.get(&4).unwrap();
    assert!(s.history.is_empty());
    assert!(s.session_id.is_none());
    assert!(s.cleared);
}

#[test]
fn test_drain_pending_uploads_delivers_once() {
    let mut state = seeded_state(9);
    {
        let mut session = opencodex::state::ChatSession::new();
        session.pending_uploads = vec!["[File uploaded] a.txt".to_string()];
        session.cleared = true;
        state.sessions.insert(9, session);
    }
    let uploads = state.drain_pending_uploads(9);
    assert_eq!(uploads, vec!["[File uploaded] a.txt".to_string()]);
    let again = state.drain_pending_uploads(9);
    assert!(again.is_empty());
    assert!(!state.sessions.get(&9).unwrap().cleared);
}

#[test]
fn test_get_allowed_tools_defaults() {
    let settings = BotSettings::new();
    let tools = get_allowed_tools(&settings, 1);
    assert_eq!(tools, default_allowed_tools());
    assert!(tools.contains(&"Bash".to_string()));
    assert_eq!(tools.len(), 17);
}

#[test]
fn test_get_allowed_tools_per_chat_override() {
    let mut settings = BotSettings::new();
    settings.allowed_tools.insert(2, vec!["Read".to_string()]);
    assert_eq!(get_allowed_tools(&settings, 2), vec!["Read".to_string()]);
    assert_eq!(get_allowed_tools(&settings, 3), default_allowed_tools());
}

#[test]
fn test_render_accumulates_partial_text_then_stops() {
    let mut t = TurnRender::new();
    apply_event(&mut t, &StreamMessage::Text { content: "partial ".to_string() });
    apply_event(&mut t, &StreamMessage::Text { content: "answer".to_string() });
    assert!(!t.done);
    let stopped = stopped_response(&t.full_response);
    assert_eq!(stopped, "partial answer\n\n[Stopped]");
    let empty = stopped_response(&"   ".to_string());
    assert_eq!(empty, "[Stopped]");
}

#[test]
fn test_render_done_and_error_terminate() {
    let mut t = TurnRender::new();
    apply_event(
        &mut t,
        &StreamMessage::Done { result: "fallback".to_string(), session_id: Some("s".to_string()) },
    );
    assert!(t.done);
    assert_eq!(t.full_response, "fallback");
    assert_eq!(t.new_session_id.as_deref(), Some("s"));

    let mut e = TurnRender::new();
    apply_event(&mut e, &StreamMessage::Text { content: "ignored".to_string() });
    apply_event(&mut e, &StreamMessage::Error { message: "broke".to_string() });
    assert!(e.done);
    assert_eq!(e.full_response, "Error: broke");
}

#[test]
fn test_render_tool_annotations() {
    let mut t = TurnRender::new();
    apply_event(
        &mut t,
        &StreamMessage::ToolUse {
            name: "Read".to_string(),
            input: r#"{"file_path":"/tmp/x"}"#.to_string(),
        },
    );
    assert_eq!(t.full_response, "\n\n\u{2699}\u{fe0f} Read /tmp/x\n");
    apply_event(
        &mut t,
        &StreamMessage::ToolResult { content: "ok".to_string(), is_error: false },
    );
    assert!(t.full_response.ends_with("\n\u{2705} `ok`\n\n"));
    apply_event(
        &mut t,
        &StreamMessage::ToolResult { content: "bad\nworse".to_string(), is_error: true },
    );
    assert!(t.full_response.ends_with("\n\u{274c}\n```\nbad\nworse\n```\n"));
    apply_event(
        &mut t,
        &StreamMessage::TaskNotification {
            task_id: "t1".to_string(),
            status: "running".to_string(),
            summary: "building".to_string(),
        },
    );
    assert!(t.full_response.ends_with("\n[Task: building]\n"));
}

#[test]
fn test_display_text_and_actions() {
    let t = TurnRender::new();
    let d0 = display_text(&t, 0);
    assert_eq!(d0, "P");
    assert_eq!(spinner_frame(11), "Processing..");
    assert_eq!(spinner_frame(12), "P");

    let mut t2 = TurnRender::new();
    apply_event(&mut t2, &StreamMessage::Text { content: "hi".to_string() });
    let d1 = display_text(&t2, 9);
    assert_eq!(d1, "hi\n\nProcessing");

    let last = "hi\n\nProcessing".to_string();
    assert_eq!(next_render_action(&d1, &last, false), RenderAction::Liveness);
    assert_eq!(next_render_action(&d1, &"old".to_string(), false), RenderAction::Edit);
    assert_eq!(next_render_action(&d1, &last, true), RenderAction::Finished);
}

#[test]
fn test_final_response_placeholder() {
    assert_eq!(final_response(&String::new()), "(응답 없음)");
    assert_eq!(final_response(&"a\n\n\n\nb".to_string()), "a\n\nb");
}

#[test]
fn test_normalize_empty_lines_collapses_runs() {
    assert_eq!(normalize_empty_lines("a\n\n\nb\n\nc"), "a\n\nb\n\nc");
    assert_eq!(normalize_empty_lines("plain"), "plain");
    assert_eq!(normalize_empty_lines(""), "");
}

#[test]
fn test_truncate_str_cuts_at_line_boundary() {
    assert_eq!(truncate_str("short", 100), "short");
    assert_eq!(truncate_str("abcdef\nghijkl", 10), "abcdef");
    assert_eq!(truncate_str("abcdefghijkl", 6), "abcdef");
    // multi-byte characters are never split
    assert_eq!(truncate_str("한글텍스트", 7), "한글");
}

#[test]
fn test_format_tool_input_known_tools() {
    assert_eq!(
        format_tool_input("Bash", r#"{"command":"ls -la","description":"List files"}"#),
        "List files: `ls -la`"
    );
    assert_eq!(format_tool_input("Bash", r#"{"command":"pwd"}"#), "`pwd`");
    assert_eq!(format_tool_input("Read", r#"{"file_path":"/a/b"}"#), "Read /a/b");
    assert_eq!(
        format_tool_input("Write", r#"{"file_path":"/a","content":"x\ny"}"#),
        "Write /a (2 lines)"
    );
    assert_eq!(
        format_tool_input("Edit", r#"{"file_path":"/a","replace_all":true}"#),
        "Edit /a (replace all)"
    );
    assert_eq!(
        format_tool_input("Grep", r#"{"pattern":"fn main","path":"/src"}"#),
        "Grep \"fn main\" in /src"
    );
    assert_eq!(
        format_tool_input("TodoWrite", r#"{"todos":[{"status":"pending"},{"status":"completed"},{"status":"completed"}]}"#),
        "Todo: 1 pending, 0 in progress, 2 completed"
    );
    assert_eq!(format_tool_input("TaskList", "{}"), "List tasks");
    assert_eq!(format_tool_input("Custom", "not json"), "Custom not json");
}

#[test]
fn test_normalize_tool_name() {
    assert_eq!(normalize_tool_name("bash"), "Bash");
    assert_eq!(normalize_tool_name("WEBFETCH"), "Webfetch");
    assert_eq!(normalize_tool_name(""), "");
}

#[test]
fn test_token_hash_is_sha256_prefix() {
    // first 8 bytes of SHA-256("test"), in lowercase hex
    assert_eq!(token_hash("test"), "9f86d081884c7d65");
    assert_eq!(token_hash("").len(), 16);
}

#[test]
fn test_select_session_picks_latest_matching() {
    let snap = |id: &str, path: &str| SessionData {
        session_id: id.to_string(),
        history: Vec::new(),
        current_path: path.to_string(),
        created_at: String::new(),
    };
    let r1 = select_session(None, snap("a", "/p"), 100, "/p");
    assert_eq!(r1.as_ref().map(|(s, t)| (s.session_id.as_str(), *t)), Some(("a", 100)));
    let r2 = select_session(r1, snap("b", "/p"), 200, "/p");
    assert_eq!(r2.as_ref().map(|(s, t)| (s.session_id.as_str(), *t)), Some(("b", 200)));
    let r3 = select_session(r2, snap("c", "/p"), 150, "/p");
    assert_eq!(r3.as_ref().map(|(s, t)| (s.session_id.as_str(), *t)), Some(("b", 200)));
    let r4 = select_session(r3, snap("d", "/other"), 900, "/p");
    assert_eq!(r4.as_ref().map(|(s, t)| (s.session_id.as_str(), *t)), Some(("b", 200)));
}

#[test]
fn test_saveable_history_drops_system_entries() {
    let history = vec![
        HistoryItem { item_type: HistoryType::User, content: "u".to_string() },
        HistoryItem { item_type: HistoryType::System, content: "sys".to_string() },
        HistoryItem { item_type: HistoryType::Assistant, content: "a".to_string() },
    ];
    let kept = saveable_history(&history);
    assert_eq!(kept.len(), 2);
    assert_eq!(kept[0].content, "u");
    assert_eq!(kept[1].content, "a");
}

#[test]
fn test_plan_message_chunks_short_text() {
    let chunks = opencodex::render::plan_message_chunks("hello", true);
    assert_eq!(chunks, vec!["hello".to_string()]);
    assert!(opencodex::render::plan_message_chunks("", false).is_empty());
}

#[test]
fn test_plan_message_chunks_splits_on_line_breaks() {
    // 700 lines of 10 bytes each: must split into chunks under the limit,
    // each ending at a line boundary
    let line = "abcdefghi\n";
    let text: String = line.repeat(700);
    let chunks = opencodex::render::plan_message_chunks(&text, false);
    assert!(chunks.len() >= 2);
    assert!(chunks.iter().all(|c| c.len() <= 4096));
    // each split consumed exactly one newline, so joining restores the text
    let rejoined = chunks.join("\n");
    assert_eq!(rejoined, text);
}

#[test]
fn test_plan_message_chunks_reopens_pre_blocks() {
    // an open <pre> block spanning a split point is closed and reopened
    let mut text = String::from("<pre>");
    text.push_str(&"x".repeat(6000));
    text.push_str("</pre>");
    let chunks = opencodex::render::plan_message_chunks(&text, true);
    assert!(chunks.len() >= 2);
    assert!(chunks[0].ends_with("</pre>"));
    assert!(chunks[1].starts_with("<pre>"));
}
