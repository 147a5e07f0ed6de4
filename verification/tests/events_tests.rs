use opencodex::events::{parse_codex_stream_line, StreamMessage};

fn parse_json(input: &str) -> serde_json::Value {
    match serde_json::from_str::<serde_json::Value>(input) {
        Ok(v) => v,
        Err(e) => panic!("failed to parse json in test: {}", e),
    }
}

#[test]
fn test_parse_thread_started() {
    let json = parse_json(r#"{"type":"thread.started","thread_id":"thread-123"}"#);
    let msgs = parse_codex_stream_line(&json);
    assert_eq!(msgs.len(), 1);
    match &msgs[0] {
        StreamMessage::Init { session_id } => assert_eq!(session_id, "thread-123"),
        _ => panic!("expected init message"),
    }
}

#[test]
fn test_parse_omx_init() {
    let json = parse_json(
        r#"{"type":"system","subtype":"init","session_id":"54c57e53-7575-4fd6-820a-8432dc14ccb6"}"#,
    );
    let msgs = parse_codex_stream_line(&json);
    assert_eq!(msgs.len(), 1);
    match &msgs[0] {
        StreamMessage::Init { session_id } => {
            assert_eq!(session_id, "54c57e53-7575-4fd6-820a-8432dc14ccb6")
        }
        _ => panic!("expected init message"),
    }
}

#[test]
fn test_parse_omx_assistant_text() {
    let json = parse_json(
        r#"{"type":"assistant","message":{"content":[{"type":"text","text":"Hello from OMX"}]}}"#,
    );
    let msgs = parse_codex_stream_line(&json);
    assert_eq!(msgs.len(), 1);
    match &msgs[0] {
        StreamMessage::Text { content } => assert_eq!(content, "Hello from OMX"),
        _ => panic!("expected text message"),
    }
}

#[test]
fn test_parse_omx_result_success() {
    let json =
        parse_json(r#"{"type":"result","is_error":false,"result":"done","session_id":"sess-1"}"#);
    let msgs = parse_codex_stream_line(&json);
    assert_eq!(msgs.len(), 1);
    match &msgs[0] {
        StreamMessage::Done { result, session_id } => {
            assert_eq!(result, "done");
            assert_eq!(session_id.as_deref(), Some("sess-1"));
        }
        _ => panic!("expected done message"),
    }
}

#[test]
fn test_parse_omx_result_error() {
    let json = parse_json(
        r#"{"type":"result","is_error":true,"errors":["boom"],"result":"","session_id":"sess-2"}"#,
    );
    let msgs = parse_codex_stream_line(&json);
    assert_eq!(msgs.len(), 2);
    match &msgs[0] {
        StreamMessage::Error { message } => assert_eq!(message, "boom"),
        _ => panic!("expected error message"),
    }
    match &msgs[1] {
        StreamMessage::Done { result, session_id } => {
            assert_eq!(result, "");
            assert_eq!(session_id.as_deref(), Some("sess-2"));
        }
        _ => panic!("expected done message"),
    }
}

#[test]
fn test_parse_agent_message() {
    let json =
        parse_json(r#"{"type":"item.completed","item":{"type":"agent_message","text":"hello"}}"#);
    let msgs = parse_codex_stream_line(&json);
    assert_eq!(msgs.len(), 1);
    match &msgs[0] {
        StreamMessage::Text { content } => assert_eq!(content, "hello"),
        _ => panic!("expected text message"),
    }
}

#[test]
fn test_parse_command_started() {
    let json = parse_json(
        r#"{"type":"item.started","item":{"type":"command_execution","command":"/bin/bash -lc pwd"}}"#,
    );
    let msgs = parse_codex_stream_line(&json);
    assert_eq!(msgs.len(), 1);
    match &msgs[0] {
        StreamMessage::ToolUse { name, input } => {
            assert_eq!(name, "Bash");
            assert!(input.contains("pwd"));
        }
        _ => panic!("expected tool use message"),
    }
}

#[test]
fn test_parse_command_completed_success() {
    let json = parse_json(
        r#"{"type":"item.completed","item":{"type":"command_execution","aggregated_output":"/tmp\n","exit_code":0}}"#,
    );
    let msgs = parse_codex_stream_line(&json);
    assert_eq!(msgs.len(), 1);
    match &msgs[0] {
        StreamMessage::ToolResult { content, is_error } => {
            assert_eq!(content, "/tmp");
            assert!(!is_error);
        }
        _ => panic!("expected tool result message"),
    }
}

#[test]
fn test_parse_command_completed_error() {
    let json = parse_json(
        r#"{"type":"item.completed","item":{"type":"command_execution","aggregated_output":"boom\n","exit_code":1}}"#,
    );
    let msgs = parse_codex_stream_line(&json);
    assert_eq!(msgs.len(), 1);
    match &msgs[0] {
        StreamMessage::ToolResult { content, is_error } => {
            assert_eq!(content, "boom");
            assert!(*is_error);
        }
        _ => panic!("expected tool result message"),
    }
}

#[test]
fn test_parse_warning_error_ignored() {
    let json = parse_json(
        r#"{"type":"item.completed","item":{"type":"error","message":"Under-development features enabled: child_agents_md"}}"#,
    );
    let msgs = parse_codex_stream_line(&json);
    assert!(msgs.is_empty());
}

#[test]
fn test_parse_real_error_forwarded() {
    let json =
        parse_json(r#"{"type":"item.completed","item":{"type":"error","message":"failed to run"}}"#);
    let msgs = parse_codex_stream_line(&json);
    assert_eq!(msgs.len(), 1);
    match &msgs[0] {
        StreamMessage::Error { message } => assert_eq!(message, "failed to run"),
        _ => panic!("expected error message"),
    }
}

#[test]
fn test_parse_turn_completed() {
    let json = parse_json(r#"{"type":"turn.completed"}"#);
    let msgs = parse_codex_stream_line(&json);
    assert_eq!(msgs.len(), 1);
    match &msgs[0] {
        StreamMessage::Done { .. } => {}
        _ => panic!("expected done message"),
    }
}

#[test]
fn test_parse_unknown_event_is_noop() {
    let json = parse_json(r#"{"type":"something.else","payload":42}"#);
    assert!(parse_codex_stream_line(&json).is_empty());
    let no_type = parse_json(r#"{"data":"x"}"#);
    assert!(parse_codex_stream_line(&no_type).is_empty());
}

#[test]
fn test_parse_tool_use_serializes_structured_input() {
    let json = parse_json(
        r#"{"type":"assistant","message":{"content":[{"type":"tool_use","name":"Read","input":{"file_path":"/tmp/a.txt"}}]}}"#,
    );
    let msgs = parse_codex_stream_line(&json);
    assert_eq!(msgs.len(), 1);
    match &msgs[0] {
        StreamMessage::ToolUse { name, input } => {
            assert_eq!(name, "Read");
            assert_eq!(input, r#"{"file_path":"/tmp/a.txt"}"#);
        }
        _ => panic!("expected tool use message"),
    }
}

#[test]
fn test_parse_result_error_joins_multiple_errors() {
    let json = parse_json(r#"{"type":"result","is_error":true,"errors":["one","two"],"result":""}"#);
    let msgs = parse_codex_stream_line(&json);
    assert_eq!(msgs.len(), 2);
    match &msgs[0] {
        StreamMessage::Error { message } => assert_eq!(message, "one\ntwo"),
        _ => panic!("expected error message"),
    }
}

#[test]
fn test_parse_result_error_falls_back_to_generic_message() {
    let json = parse_json(r#"{"type":"result","is_error":true,"result":"   "}"#);
    let msgs = parse_codex_stream_line(&json);
    assert_eq!(msgs.len(), 2);
    match &msgs[0] {
        StreamMessage::Error { message } => assert_eq!(message, "OMX execution failed"),
        _ => panic!("expected error message"),
    }
}

#[test]
fn test_parse_silent_failed_command_synthesizes_message() {
    let json = parse_json(
        r#"{"type":"item.completed","item":{"type":"command_execution","aggregated_output":"","exit_code":7}}"#,
    );
    let msgs = parse_codex_stream_line(&json);
    assert_eq!(msgs.len(), 1);
    match &msgs[0] {
        StreamMessage::ToolResult { content, is_error } => {
            assert_eq!(content, "Command exited with code 7");
            assert!(*is_error);
        }
        _ => panic!("expected tool result message"),
    }
}
