//! The protocol normalizer: one parsed backend JSON event becomes zero or
//! more normalized stream events.
//!
//! Two backend vocabularies are supported: the assistant/tool-call style
//! (`system`/`assistant`/`result`) and the turn/item style
//! (`thread.started`/`item.*`/`turn.completed`). Unrecognized event types
//! yield no events.

use vstd::prelude::*;

use crate::json::{jbool, jget, jint, json_of, json_serialized, jstr, value_as_array, value_as_bool,
    value_as_i64, value_as_str, value_get, Json};
use crate::text::{contains_chars, contains_seq, spec_i64_dec, spec_trim, spec_trim_end,
    i64_dec_chars, str_eq, str_to_chars, string_of_chars, trim_chars, trim_end_chars};

verus! {

/// Streaming message types for the normalized backend event stream.
#[derive(Debug, Clone)]
pub enum StreamMessage {
    /// Initialization: carries the thread/session id.
    Init { session_id: String },
    /// Text response chunk.
    Text { content: String },
    /// Tool use started.
    ToolUse { name: String, input: String },
    /// Tool execution result.
    ToolResult { content: String, is_error: bool },
    /// Background task notification.
    TaskNotification { task_id: String, status: String, summary: String },
    /// Completion.
    Done { result: String, session_id: Option<String> },
    /// Error.
    Error { message: String },
}

/// The mathematical shape of a normalized stream event.
#[verifier::ext_equal]
pub enum EventSpec {
    Init { session_id: Seq<char> },
    Text { content: Seq<char> },
    ToolUse { name: Seq<char>, input: Seq<char> },
    ToolResult { content: Seq<char>, is_error: bool },
    TaskNotification { task_id: Seq<char>, status: Seq<char>, summary: Seq<char> },
    Done { result: Seq<char>, session_id: Option<Seq<char>> },
    Error { message: Seq<char> },
}

impl View for StreamMessage {
    type V = EventSpec;

    open spec fn view(&self) -> EventSpec {
        match self {
            StreamMessage::Init { session_id } => EventSpec::Init { session_id: session_id@ },
            StreamMessage::Text { content } => EventSpec::Text { content: content@ },
            StreamMessage::ToolUse { name, input } => EventSpec::ToolUse {
                name: name@,
                input: input@,
            },
            StreamMessage::ToolResult { content, is_error } => EventSpec::ToolResult {
                content: content@,
                is_error: *is_error,
            },
            StreamMessage::TaskNotification { task_id, status, summary } =>
                EventSpec::TaskNotification {
                task_id: task_id@,
                status: status@,
                summary: summary@,
            },
            StreamMessage::Done { result, session_id } => EventSpec::Done {
                result: result@,
                session_id: match session_id {
                    Some(s) => Some(s@),
                    None => None,
                },
            },
            StreamMessage::Error { message } => EventSpec::Error { message: message@ },
        }
    }
}

/// The views of a vector of stream messages.
pub open spec fn views_of(s: Seq<StreamMessage>) -> Seq<EventSpec> {
    s.map_values(|m: StreamMessage| m@)
}

/// The string member named `key`, or empty where absent or not a string.
pub open spec fn jstr_or_empty(j: Json, key: Seq<char>) -> Seq<char> {
    match jstr(j, key) {
        Some(t) => t,
        None => Seq::empty(),
    }
}

/// The input a tool-use block carries: its `input` member as-is when a
/// string, its serialization otherwise, empty when absent.
pub open spec fn spec_tool_use_input(b: Json) -> Seq<char> {
    match jget(b, "input"@) {
        None => Seq::empty(),
        Some(Json::Text(t)) => t,
        Some(other) => json_serialized(other),
    }
}

/// Events of one assistant content block: a non-empty `text` block yields
/// a `Text` event, a `tool_use` block yields a `ToolUse` event.
pub open spec fn spec_block_events(b: Json) -> Seq<EventSpec> {
    match jstr(b, "type"@) {
        Some(t) => if t == "text"@ {
            let tx = jstr_or_empty(b, "text"@);
            if tx.len() > 0 {
                seq![EventSpec::Text { content: tx }]
            } else {
                Seq::empty()
            }
        } else if t == "tool_use"@ {
            let name = match jstr(b, "name"@) {
                Some(n) => n,
                None => "Tool"@,
            };
            seq![EventSpec::ToolUse { name, input: spec_tool_use_input(b) }]
        } else {
            Seq::empty()
        },
        None => Seq::empty(),
    }
}

/// Events of a whole assistant content array, in order.
pub open spec fn spec_blocks_events(bs: Seq<Json>) -> Seq<EventSpec>
    decreases bs.len(),
{
    if bs.len() == 0 {
        Seq::empty()
    } else {
        spec_block_events(bs[0]) + spec_blocks_events(bs.drop_first())
    }
}

proof fn lemma_blocks_events_snoc(bs: Seq<Json>, b: Json)
    ensures
        spec_blocks_events(bs.push(b)) == spec_blocks_events(bs) + spec_block_events(b),
    decreases bs.len(),
{
    if bs.len() == 0 {
        assert(bs.push(b)[0] == b);
        assert(bs.push(b).drop_first() =~= Seq::<Json>::empty());
        assert(spec_blocks_events(Seq::<Json>::empty()) =~= Seq::<EventSpec>::empty());
        assert(spec_blocks_events(bs.push(b)) =~= spec_block_events(b));
        assert(spec_blocks_events(bs) + spec_block_events(b) =~= spec_block_events(b));
    } else {
        assert(bs.push(b)[0] == bs[0]);
        assert(bs.push(b).drop_first() =~= bs.drop_first().push(b));
        lemma_blocks_events_snoc(bs.drop_first(), b);
        assert(spec_blocks_events(bs.push(b)) =~= spec_blocks_events(bs) + spec_block_events(b));
    }
}

/// The string elements of an error array, in order.
pub open spec fn spec_error_texts(es: Seq<Json>) -> Seq<Seq<char>>
    decreases es.len(),
{
    if es.len() == 0 {
        Seq::empty()
    } else {
        (match es[0] {
            Json::Text(t) => seq![t],
            _ => Seq::empty(),
        }) + spec_error_texts(es.drop_first())
    }
}

/// The pieces joined with a newline between each pair.
pub open spec fn spec_join_newline(ts: Seq<Seq<char>>) -> Seq<char>
    decreases ts.len(),
{
    if ts.len() == 0 {
        Seq::empty()
    } else if ts.len() == 1 {
        ts[0]
    } else {
        ts[0] + seq!['\n'] + spec_join_newline(ts.drop_first())
    }
}

proof fn lemma_error_texts_snoc(es: Seq<Json>, e: Json)
    ensures
        spec_error_texts(es.push(e)) == spec_error_texts(es) + (match e {
            Json::Text(t) => seq![t],
            _ => Seq::<Seq<char>>::empty(),
        }),
    decreases es.len(),
{
    if es.len() == 0 {
        assert(es.push(e)[0] == e);
        assert(es.push(e).drop_first() =~= Seq::<Json>::empty());
        assert(spec_error_texts(Seq::<Json>::empty()) =~= Seq::<Seq<char>>::empty());
        assert(spec_error_texts(es.push(e)) =~= spec_error_texts(es) + (match e {
            Json::Text(t) => seq![t],
            _ => Seq::<Seq<char>>::empty(),
        }));
    } else {
        assert(es.push(e)[0] == es[0]);
        assert(es.push(e).drop_first() =~= es.drop_first().push(e));
        lemma_error_texts_snoc(es.drop_first(), e);
        assert(spec_error_texts(es.push(e)) =~= spec_error_texts(es) + (match e {
            Json::Text(t) => seq![t],
            _ => Seq::<Seq<char>>::empty(),
        }));
    }
}

proof fn lemma_join_newline_snoc(ts: Seq<Seq<char>>, t: Seq<char>)
    ensures
        spec_join_newline(ts.push(t)) == if ts.len() == 0 {
            t
        } else {
            spec_join_newline(ts) + seq!['\n'] + t
        },
    decreases ts.len(),
{
    if ts.len() == 0 {
        assert(ts.push(t)[0] == t);
        assert(spec_join_newline(ts.push(t)) == t);
    } else if ts.len() == 1 {
        assert(ts.push(t)[0] == ts[0]);
        assert(ts.push(t).drop_first() =~= seq![t]);
        assert(spec_join_newline(seq![t]) == t);
        assert(spec_join_newline(ts.push(t)) == ts[0] + seq!['\n'] + t);
        assert(spec_join_newline(ts) == ts[0]);
    } else {
        assert(ts.push(t)[0] == ts[0]);
        assert(ts.push(t).drop_first() =~= ts.drop_first().push(t));
        lemma_join_newline_snoc(ts.drop_first(), t);
        assert(spec_join_newline(ts) == ts[0] + seq!['\n'] + spec_join_newline(ts.drop_first()));
        assert(ts[0] + seq!['\n'] + (spec_join_newline(ts.drop_first()) + seq!['\n'] + t) =~= (
        ts[0] + seq!['\n'] + spec_join_newline(ts.drop_first())) + seq!['\n'] + t);
    }
}

/// Events of a terminal `result` event: a `Done`, preceded by an `Error`
/// when the result is flagged as one. The error message prefers the
/// joined `errors` array, then the non-blank result text, then a generic
/// message.
pub open spec fn spec_result_events(j: Json) -> Seq<EventSpec> {
    let result_text = jstr_or_empty(j, "result"@);
    let session_id = jstr(j, "session_id"@);
    let is_error = match jbool(j, "is_error"@) {
        Some(b) => b,
        None => false,
    };
    let done = EventSpec::Done { result: result_text, session_id };
    if is_error {
        let errors = match jget(j, "errors"@) {
            Some(Json::Array(es)) => spec_join_newline(spec_error_texts(es)),
            _ => Seq::empty(),
        };
        let message = if errors.len() > 0 {
            errors
        } else if spec_trim(result_text).len() > 0 {
            result_text
        } else {
            "OMX execution failed"@
        };
        seq![EventSpec::Error { message }, done]
    } else {
        seq![done]
    }
}

/// The phrase marking a benign diagnostic that is suppressed, never
/// surfaced as an error.
pub open spec fn suppressed_phrase() -> Seq<char> {
    "Under-development features enabled"@
}

/// Events of an `item.started` event: the start of a command execution
/// becomes a `ToolUse` of the shell tool.
pub open spec fn spec_item_started_events(item: Json) -> Seq<EventSpec> {
    if jstr(item, "type"@) == Some("command_execution"@) {
        let cmd = jstr_or_empty(item, "command"@);
        if cmd.len() > 0 {
            seq![EventSpec::ToolUse { name: "Bash"@, input: cmd }]
        } else {
            Seq::empty()
        }
    } else {
        Seq::empty()
    }
}

/// Events of an `item.completed` event: agent messages become `Text`,
/// command completions become `ToolResult` (with a synthesized message
/// where the command printed nothing), errors are surfaced except the
/// suppressed benign diagnostic.
pub open spec fn spec_item_completed_events(item: Json) -> Seq<EventSpec> {
    match jstr(item, "type"@) {
        Some(t) => if t == "agent_message"@ {
            let tx = jstr_or_empty(item, "text"@);
            if tx.len() > 0 {
                seq![EventSpec::Text { content: tx }]
            } else {
                Seq::empty()
            }
        } else if t == "command_execution"@ {
            let output = spec_trim_end(jstr_or_empty(item, "aggregated_output"@));
            let exit_code = jint(item, "exit_code"@);
            let is_error = (match exit_code {
                Some(c) => c,
                None => 0,
            }) != 0;
            if output.len() > 0 || is_error {
                let content = if output.len() > 0 {
                    output
                } else {
                    "Command exited with code "@ + spec_i64_dec(
                        match exit_code {
                            Some(c) => c,
                            None => -1,
                        },
                    )
                };
                seq![EventSpec::ToolResult { content, is_error }]
            } else {
                Seq::empty()
            }
        } else if t == "error"@ {
            let message = spec_trim(jstr_or_empty(item, "message"@));
            if message.len() > 0 && !contains_seq(message, suppressed_phrase()) {
                seq![EventSpec::Error { message }]
            } else {
                Seq::empty()
            }
        } else {
            Seq::empty()
        },
        None => Seq::empty(),
    }
}

/// The events one parsed backend JSON object normalizes to.
pub open spec fn spec_normalize(j: Json) -> Seq<EventSpec> {
    match jstr(j, "type"@) {
        None => Seq::empty(),
        Some(t) => if t == "system"@ {
            if jstr(j, "subtype"@) == Some("init"@) {
                match jstr(j, "session_id"@) {
                    Some(sid) => seq![EventSpec::Init { session_id: sid }],
                    None => Seq::empty(),
                }
            } else {
                Seq::empty()
            }
        } else if t == "assistant"@ {
            match jget(j, "message"@) {
                Some(m) => match jget(m, "content"@) {
                    Some(Json::Array(bs)) => spec_blocks_events(bs),
                    _ => Seq::empty(),
                },
                None => Seq::empty(),
            }
        } else if t == "result"@ {
            spec_result_events(j)
        } else if t == "thread.started"@ {
            match jstr(j, "thread_id"@) {
                Some(tid) => seq![EventSpec::Init { session_id: tid }],
                None => Seq::empty(),
            }
        } else if t == "item.started"@ {
            match jget(j, "item"@) {
                Some(item) => spec_item_started_events(item),
                None => Seq::empty(),
            }
        } else if t == "item.completed"@ {
            match jget(j, "item"@) {
                Some(item) => spec_item_completed_events(item),
                None => Seq::empty(),
            }
        } else if t == "turn.completed"@ {
            seq![EventSpec::Done { result: Seq::empty(), session_id: None }]
        } else {
            Seq::empty()
        },
    }
}

/// Look a string member up on a value.
pub(crate) fn get_str<'a>(v: &'a serde_json::Value, key: &str) -> (r: Option<&'a str>)
    ensures
        match r {
            Some(s) => jstr(json_of(*v), key@) == Some(s@),
            None => jstr(json_of(*v), key@) is None,
        },
{
    match value_get(v, key) {
        Some(w) => value_as_str(w),
        None => None,
    }
}

/// Copy a borrowed string into an owned one.
fn owned(s: &str) -> (r: String)
    ensures
        r@ == s@,
{
    s.to_owned()
}

/// Parse one backend JSONL event into zero or more stream messages.
///
/// This is the whole protocol normalizer: both backend vocabularies are
/// handled here and nothing else constructs stream events from backend
/// output.
pub fn parse_codex_stream_line(json: &serde_json::Value) -> (msgs: Vec<StreamMessage>)
    ensures
        views_of(msgs@) == spec_normalize(json_of(*json)),
{
    let mut msgs: Vec<StreamMessage> = Vec::new();
    assert(views_of(msgs@) =~= Seq::<EventSpec>::empty());
    let event_type = match get_str(json, "type") {
        Some(t) => t,
        None => {
            return msgs;
        }
    };

    if str_eq(event_type, "system") {
        let is_init = match get_str(json, "subtype") {
            Some(s) => str_eq(s, "init"),
            None => false,
        };
        if is_init {
            if let Some(sid) = get_str(json, "session_id") {
                msgs.push(StreamMessage::Init { session_id: owned(sid) });
                assert(views_of(msgs@) =~~= spec_normalize(json_of(*json)));
            }
        }
    } else if str_eq(event_type, "assistant") {
        if let Some(message) = value_get(json, "message") {
            if let Some(content) = value_get(message, "content") {
                if let Some(blocks) = value_as_array(content) {
                    let ghost bs = blocks@.map_values(|x: serde_json::Value| json_of(x));
                    let mut i: usize = 0;
                    while i < blocks.len()
                        invariant
                            0 <= i <= blocks@.len(),
                            bs == blocks@.map_values(|x: serde_json::Value| json_of(x)),
                            bs.len() == blocks@.len(),
                            forall|k: int| 0 <= k < bs.len() ==> bs[k] == json_of(blocks@[k]),
                            views_of(msgs@) == spec_blocks_events(bs.take(i as int)),
                        decreases blocks@.len() - i,
                    {
                        let block = &blocks[i];
                        let ghost n0 = msgs@.len() as int;
                        emit_block_events(&mut msgs, block);
                        proof {
                            lemma_blocks_events_snoc(bs.take(i as int), bs[i as int]);
                            assert(bs.take(i + 1 as int) =~= bs.take(i as int).push(bs[i as int]));
                        }
                        i = i + 1;
                    }
                    proof {
                        assert(bs.take(bs.len() as int) =~= bs);
                    }
                }
            }
        }
    } else if str_eq(event_type, "result") {
        emit_result_events(&mut msgs, json);
    } else if str_eq(event_type, "thread.started") {
        if let Some(tid) = get_str(json, "thread_id") {
            msgs.push(StreamMessage::Init { session_id: owned(tid) });
            assert(views_of(msgs@) =~~= spec_normalize(json_of(*json)));
        }
    } else if str_eq(event_type, "item.started") {
        if let Some(item) = value_get(json, "item") {
            let is_cmd = match get_str(item, "type") {
                Some(t) => str_eq(t, "command_execution"),
                None => false,
            };
            if is_cmd {
                if let Some(cmd) = get_str(item, "command") {
                    if cmd.unicode_len() > 0 {
                        msgs.push(StreamMessage::ToolUse {
                            name: owned("Bash"),
                            input: owned(cmd),
                        });
                        assert(views_of(msgs@) =~~= spec_item_started_events(json_of(*item)));
                    }
                }
            }
        }
    } else if str_eq(event_type, "item.completed") {
        if let Some(item) = value_get(json, "item") {
            emit_item_completed_events(&mut msgs, item);
        }
    } else if str_eq(event_type, "turn.completed") {
        msgs.push(StreamMessage::Done { result: owned(""), session_id: None });
        proof {
            reveal_strlit("");
            assert(""@ =~= Seq::<char>::empty());
            assert(views_of(msgs@) =~~= spec_normalize(json_of(*json)));
        }
    }
    assert(views_of(msgs@) =~~= spec_normalize(json_of(*json)));
    msgs
}

/// Append the events of one assistant content block.
fn emit_block_events(msgs: &mut Vec<StreamMessage>, block: &serde_json::Value)
    ensures
        views_of(final(msgs)@) == views_of(old(msgs)@) + spec_block_events(json_of(*block)),
{
    let ghost before = msgs@;
    let bt = match get_str(block, "type") {
        Some(t) => t,
        None => {
            assert(views_of(msgs@) =~~= views_of(msgs@) + spec_block_events(json_of(*block)));
            return ;
        }
    };
    if str_eq(bt, "text") {
        let text = match get_str(block, "text") {
            Some(t) => owned(t),
            None => owned(""),
        };
        proof {
            reveal_strlit("");
        }
        if text.as_str().unicode_len() > 0 {
            msgs.push(StreamMessage::Text { content: text });
            assert(views_of(msgs@) =~~= views_of(before) + spec_block_events(json_of(*block)));
        } else {
            assert(views_of(msgs@) =~~= views_of(before) + spec_block_events(json_of(*block)));
        }
    } else if str_eq(bt, "tool_use") {
        let name = match get_str(block, "name") {
            Some(n) => owned(n),
            None => owned("Tool"),
        };
        let input = match value_get(block, "input") {
            Some(w) => match value_as_str(w) {
                Some(s) => owned(s),
                None => crate::json::value_to_string(w),
            },
            None => owned(""),
        };
        proof {
            reveal_strlit("");
        }
        assert(input@ == spec_tool_use_input(json_of(*block)));
        msgs.push(StreamMessage::ToolUse { name, input });
        assert(views_of(msgs@) =~~= views_of(before) + spec_block_events(json_of(*block)));
    } else {
        assert(views_of(msgs@) =~~= views_of(before) + spec_block_events(json_of(*block)));
    }
}

/// Append the events of a terminal `result` event.
fn emit_result_events(msgs: &mut Vec<StreamMessage>, json: &serde_json::Value)
    ensures
        views_of(final(msgs)@) == views_of(old(msgs)@) + spec_result_events(json_of(*json)),
{
    let ghost before = msgs@;
    let result_text = match get_str(json, "result") {
        Some(t) => owned(t),
        None => owned(""),
    };
    let session_id: Option<String> = match get_str(json, "session_id") {
        Some(s) => Some(owned(s)),
        None => None,
    };
    let is_error = match value_get(json, "is_error") {
        Some(w) => match value_as_bool(w) {
            Some(b) => b,
            None => false,
        },
        None => false,
    };
    proof {
        reveal_strlit("");
    }
    if is_error {
        let errors = match value_get(json, "errors") {
            Some(w) => match value_as_array(w) {
                Some(arr) => join_error_texts(arr),
                None => owned(""),
            },
            None => owned(""),
        };
        let result_chars = str_to_chars(result_text.as_str());
        let trimmed = trim_chars(&result_chars);
        let message = if errors.as_str().unicode_len() > 0 {
            errors
        } else if trimmed.len() > 0 {
            result_text.clone()
        } else {
            owned("OMX execution failed")
        };
        msgs.push(StreamMessage::Error { message });
        msgs.push(StreamMessage::Done { result: result_text, session_id });
        assert(views_of(msgs@) =~~= views_of(before) + spec_result_events(json_of(*json)));
    } else {
        msgs.push(StreamMessage::Done { result: result_text, session_id });
        assert(views_of(msgs@) =~~= views_of(before) + spec_result_events(json_of(*json)));
    }
}

/// Join the string elements of an error array with newlines.
fn join_error_texts(arr: &Vec<serde_json::Value>) -> (r: String)
    ensures
        r@ == spec_join_newline(
            spec_error_texts(arr@.map_values(|x: serde_json::Value| json_of(x))),
        ),
{
    let ghost es = arr@.map_values(|x: serde_json::Value| json_of(x));
    let mut out: Vec<char> = Vec::new();
    let mut count: usize = 0;
    let mut i: usize = 0;
    while i < arr.len()
        invariant
            0 <= i <= arr@.len(),
            es == arr@.map_values(|x: serde_json::Value| json_of(x)),
            es.len() == arr@.len(),
            forall|k: int| 0 <= k < es.len() ==> es[k] == json_of(arr@[k]),
            count <= i,
            count == spec_error_texts(es.take(i as int)).len(),
            out@ == spec_join_newline(spec_error_texts(es.take(i as int))),
        decreases arr@.len() - i,
    {
        let ghost texts_before = spec_error_texts(es.take(i as int));
        match value_as_str(&arr[i]) {
            Some(s) => {
                if count > 0 {
                    out.push('\n');
                }
                let mut sc = str_to_chars(s);
                out.append(&mut sc);
                count = count + 1;
                proof {
                    lemma_error_texts_snoc(es.take(i as int), es[i as int]);
                    assert(es.take(i + 1 as int) =~= es.take(i as int).push(es[i as int]));
                    lemma_join_newline_snoc(texts_before, s@);
                    assert(spec_error_texts(es.take(i + 1 as int)) =~= texts_before.push(s@));
                }
            }
            None => {
                proof {
                    lemma_error_texts_snoc(es.take(i as int), es[i as int]);
                    assert(es.take(i + 1 as int) =~= es.take(i as int).push(es[i as int]));
                    assert(spec_error_texts(es.take(i + 1 as int)) =~= texts_before);
                }
            }
        }
        i = i + 1;
    }
    proof {
        assert(es.take(es.len() as int) =~= es);
    }
    string_of_chars(&out)
}

/// Append the events of an `item.completed` event.
fn emit_item_completed_events(msgs: &mut Vec<StreamMessage>, item: &serde_json::Value)
    ensures
        views_of(final(msgs)@) == views_of(old(msgs)@) + spec_item_completed_events(
            json_of(*item),
        ),
{
    let ghost before = msgs@;
    let it = match get_str(item, "type") {
        Some(t) => t,
        None => {
            assert(views_of(msgs@) =~~= views_of(msgs@) + spec_item_completed_events(
                json_of(*item),
            ));
            return ;
        }
    };
    proof {
        reveal_strlit("");
    }
    if str_eq(it, "agent_message") {
        let text = match get_str(item, "text") {
            Some(t) => owned(t),
            None => owned(""),
        };
        if text.as_str().unicode_len() > 0 {
            msgs.push(StreamMessage::Text { content: text });
        }
        assert(views_of(msgs@) =~~= views_of(before) + spec_item_completed_events(json_of(*item)));
    } else if str_eq(it, "command_execution") {
        let raw_output = match get_str(item, "aggregated_output") {
            Some(t) => owned(t),
            None => owned(""),
        };
        let output_chars = trim_end_chars(&str_to_chars(raw_output.as_str()));
        let exit_code: Option<i64> = match value_get(item, "exit_code") {
            Some(w) => value_as_i64(w),
            None => None,
        };
        let code_or_zero: i64 = match exit_code {
            Some(c) => c,
            None => 0,
        };
        let is_error = code_or_zero != 0;
        if output_chars.len() > 0 || is_error {
            let content = if output_chars.len() > 0 {
                string_of_chars(&output_chars)
            } else {
                let mut c = str_to_chars("Command exited with code ");
                let code_for_msg: i64 = match exit_code {
                    Some(c2) => c2,
                    None => -1,
                };
                let mut d = i64_dec_chars(code_for_msg);
                c.append(&mut d);
                string_of_chars(&c)
            };
            msgs.push(StreamMessage::ToolResult { content, is_error });
        }
        assert(views_of(msgs@) =~~= views_of(before) + spec_item_completed_events(json_of(*item)));
    } else if str_eq(it, "error") {
        let raw = match get_str(item, "message") {
            Some(t) => owned(t),
            None => owned(""),
        };
        let message_chars = trim_chars(&str_to_chars(raw.as_str()));
        let phrase = str_to_chars("Under-development features enabled");
        proof {
            reveal_strlit("Under-development features enabled");
        }
        if message_chars.len() > 0 && !contains_chars(&message_chars, &phrase) {
            msgs.push(StreamMessage::Error { message: string_of_chars(&message_chars) });
        }
        assert(views_of(msgs@) =~~= views_of(before) + spec_item_completed_events(json_of(*item)));
    } else {
        assert(views_of(msgs@) =~~= views_of(before) + spec_item_completed_events(json_of(*item)));
    }
}

} // verus!

verus! {

/// A `thread.started` event carrying a thread id always normalizes to
/// exactly one `Init` event with that identifier.
pub proof fn lemma_thread_started_init(j: Json, tid: Seq<char>)
    requires
        jstr(j, "type"@) == Some("thread.started"@),
        jstr(j, "thread_id"@) == Some(tid),
    ensures
        spec_normalize(j) =~= seq![EventSpec::Init { session_id: tid }],
{
    reveal_strlit("thread.started");
    reveal_strlit("system");
    reveal_strlit("assistant");
    reveal_strlit("result");
    assert("thread.started"@ != "system"@) by {
        assert("thread.started"@.len() != "system"@.len());
    }
    assert("thread.started"@ != "assistant"@) by {
        assert("thread.started"@.len() != "assistant"@.len());
    }
    assert("thread.started"@ != "result"@) by {
        assert("thread.started"@.len() != "result"@.len());
    }
}

/// A `system` event of the `init` subtype carrying a session id always
/// normalizes to exactly one `Init` event with that identifier.
pub proof fn lemma_system_init(j: Json, sid: Seq<char>)
    requires
        jstr(j, "type"@) == Some("system"@),
        jstr(j, "subtype"@) == Some("init"@),
        jstr(j, "session_id"@) == Some(sid),
    ensures
        spec_normalize(j) =~= seq![EventSpec::Init { session_id: sid }],
{
}

/// A terminal `result` event flagged as an error always normalizes to
/// exactly two events: an `Error` followed by the `Done`, in that order.
pub proof fn lemma_error_precedes_done(j: Json)
    requires
        jstr(j, "type"@) == Some("result"@),
        jbool(j, "is_error"@) == Some(true),
    ensures
        spec_normalize(j).len() == 2,
        spec_normalize(j)[0] is Error,
        spec_normalize(j)[1] is Done,
{
    reveal_strlit("result");
    reveal_strlit("system");
    reveal_strlit("assistant");
    assert("result"@ != "system"@) by {
        assert("result"@[0] != "system"@[0]);
    }
    assert("result"@ != "assistant"@) by {
        assert("result"@.len() != "assistant"@.len());
    }
}

/// A benign `item.completed` error whose (trimmed) message mentions the
/// suppressed diagnostic phrase normalizes to no events at all.
pub proof fn lemma_benign_error_suppressed(j: Json, item: Json, msg: Seq<char>)
    requires
        jstr(j, "type"@) == Some("item.completed"@),
        jget(j, "item"@) == Some(item),
        jstr(item, "type"@) == Some("error"@),
        jstr(item, "message"@) == Some(msg),
        contains_seq(spec_trim(msg), suppressed_phrase()),
    ensures
        spec_normalize(j) =~= Seq::<EventSpec>::empty(),
{
    reveal_strlit("item.completed");
    reveal_strlit("system");
    reveal_strlit("assistant");
    reveal_strlit("result");
    reveal_strlit("thread.started");
    reveal_strlit("item.started");
    reveal_strlit("error");
    reveal_strlit("agent_message");
    reveal_strlit("command_execution");
    assert("item.completed"@ != "system"@) by {
        assert("item.completed"@.len() != "system"@.len());
    }
    assert("item.completed"@ != "assistant"@) by {
        assert("item.completed"@.len() != "assistant"@.len());
    }
    assert("item.completed"@ != "result"@) by {
        assert("item.completed"@.len() != "result"@.len());
    }
    assert("item.completed"@ != "thread.started"@) by {
        assert("item.completed"@[0] != "thread.started"@[0]);
    }
    assert("item.completed"@ != "item.started"@) by {
        assert("item.completed"@.len() != "item.started"@.len());
    }
    assert("error"@ != "agent_message"@) by {
        assert("error"@.len() != "agent_message"@.len());
    }
    assert("error"@ != "command_execution"@) by {
        assert("error"@.len() != "command_execution"@.len());
    }
}

} // verus!
