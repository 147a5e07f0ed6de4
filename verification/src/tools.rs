//! Human-readable summaries of tool invocations, rendered inline by the
//! render loop while a turn streams.

use vstd::prelude::*;

use crate::json::{jbool, jget, json_of, jstr, spec_parse_json, value_as_array, value_get, Json};
use crate::events::jstr_or_empty;
use crate::render::{spec_lines, spec_truncate, split_lines, truncate_chars};
use crate::text::{
    spec_lower, spec_u64_dec, str_eq, str_to_chars, string_of_chars, u64_dec_chars,
};

verus! {

/// A tool name normalized to an initial capital: first character
/// uppercased, the rest lowercased (ASCII case).
pub open spec fn spec_normalize_tool_name(s: Seq<char>) -> Seq<char> {
    let lower = spec_lower(s);
    if lower.len() == 0 {
        lower
    } else {
        seq![upper_char(lower[0])] + lower.drop_first()
    }
}

/// ASCII uppercasing of one character.
pub open spec fn upper_char(c: char) -> char {
    if 'a' <= c && c <= 'z' {
        ((c as u8) - 32) as char
    } else {
        c
    }
}

/// Normalize a tool name: first letter uppercase, rest lowercase.
pub fn normalize_tool_name(name: &str) -> (r: String)
    ensures
        r@ == spec_normalize_tool_name(name@),
{
    let chars = str_to_chars(name);
    let lower = crate::text::lower_chars(&chars);
    if lower.len() == 0 {
        return string_of_chars(&lower);
    }
    let c = lower[0];
    let up = if 'a' <= c && c <= 'z' {
        (c as u8 - 32) as char
    } else {
        c
    };
    let mut out: Vec<char> = Vec::new();
    out.push(up);
    let mut rest = crate::text::subrange_chars(&lower, 1, lower.len());
    out.append(&mut rest);
    proof {
        assert(out@ =~= spec_normalize_tool_name(name@));
    }
    string_of_chars(&out)
}

/// How many elements of `ts` carry a `status` member equal to `status`.
pub open spec fn spec_count_status(ts: Seq<Json>, status: Seq<char>) -> int
    decreases ts.len(),
{
    if ts.len() == 0 {
        0
    } else {
        (if jstr(ts[0], "status"@) == Some(status) {
            1int
        } else {
            0int
        }) + spec_count_status(ts.drop_first(), status)
    }
}

proof fn lemma_count_status_snoc(ts: Seq<Json>, t: Json, status: Seq<char>)
    ensures
        spec_count_status(ts.push(t), status) == spec_count_status(ts, status) + (if jstr(
            t,
            "status"@,
        ) == Some(status) {
            1int
        } else {
            0int
        }),
    decreases ts.len(),
{
    if ts.len() == 0 {
        assert(ts.push(t)[0] == t);
        assert(ts.push(t).drop_first() =~= Seq::<Json>::empty());
        assert(spec_count_status(Seq::<Json>::empty(), status) == 0);
    } else {
        assert(ts.push(t)[0] == ts[0]);
        assert(ts.push(t).drop_first() =~= ts.drop_first().push(t));
        lemma_count_status_snoc(ts.drop_first(), t, status);
    }
}

proof fn lemma_count_status_bound(ts: Seq<Json>, status: Seq<char>)
    ensures
        0 <= spec_count_status(ts, status) <= ts.len(),
    decreases ts.len(),
{
    if ts.len() > 0 {
        lemma_count_status_bound(ts.drop_first(), status);
    }
}

/// Count the todo entries in the given status.
fn count_status(arr: &Vec<serde_json::Value>, status: &str) -> (n: usize)
    ensures
        n == spec_count_status(arr@.map_values(|x: serde_json::Value| json_of(x)), status@),
{
    let ghost ts = arr@.map_values(|x: serde_json::Value| json_of(x));
    proof {
        lemma_count_status_bound(ts, status@);
    }
    let mut n: usize = 0;
    let mut i: usize = 0;
    proof {
        assert(ts.take(0) =~= Seq::<Json>::empty());
    }
    while i < arr.len()
        invariant
            i <= arr@.len(),
            ts == arr@.map_values(|x: serde_json::Value| json_of(x)),
            ts.len() == arr@.len(),
            forall|k: int| 0 <= k < ts.len() ==> ts[k] == json_of(arr@[k]),
            n == spec_count_status(ts.take(i as int), status@),
            n <= i,
        decreases arr@.len() - i,
    {
        proof {
            lemma_count_status_snoc(ts.take(i as int), ts[i as int], status@);
            assert(ts.take(i + 1 as int) =~= ts.take(i as int).push(ts[i as int]));
        }
        let matched = match crate::events::get_str(&arr[i], "status") {
            Some(s) => str_eq(s, status),
            None => false,
        };
        if matched {
            n = n + 1;
        }
        i = i + 1;
    }
    proof {
        assert(ts.take(ts.len() as int) =~= ts);
    }
    n
}

/// The summary line for one tool invocation, given the tool name and its
/// parsed input object.
pub open spec fn spec_format_known_tool(name: Seq<char>, input: Seq<char>, j: Json) -> Seq<char> {
    if name == "Bash"@ {
        let desc = jstr_or_empty(j, "description"@);
        let cmd = jstr_or_empty(j, "command"@);
        if desc.len() > 0 {
            desc + ": `"@ + spec_truncate(cmd, 150) + "`"@
        } else {
            "`"@ + spec_truncate(cmd, 200) + "`"@
        }
    } else if name == "Read"@ {
        "Read "@ + jstr_or_empty(j, "file_path"@)
    } else if name == "Write"@ {
        let fp = jstr_or_empty(j, "file_path"@);
        let content = jstr_or_empty(j, "content"@);
        let lines = spec_lines(content).len();
        if lines > 0 {
            "Write "@ + fp + " ("@ + spec_u64_dec(lines) + " lines)"@
        } else {
            "Write "@ + fp
        }
    } else if name == "Edit"@ {
        let fp = jstr_or_empty(j, "file_path"@);
        let replace_all = match jbool(j, "replace_all"@) {
            Some(b) => b,
            None => false,
        };
        if replace_all {
            "Edit "@ + fp + " (replace all)"@
        } else {
            "Edit "@ + fp
        }
    } else if name == "Glob"@ {
        let pattern = jstr_or_empty(j, "pattern"@);
        let path = jstr_or_empty(j, "path"@);
        if path.len() > 0 {
            "Glob "@ + pattern + " in "@ + path
        } else {
            "Glob "@ + pattern
        }
    } else if name == "Grep"@ {
        let pattern = jstr_or_empty(j, "pattern"@);
        let path = jstr_or_empty(j, "path"@);
        let output_mode = jstr_or_empty(j, "output_mode"@);
        if path.len() > 0 {
            if output_mode.len() > 0 {
                "Grep \""@ + pattern + "\" in "@ + path + " ("@ + output_mode + ")"@
            } else {
                "Grep \""@ + pattern + "\" in "@ + path
            }
        } else {
            "Grep \""@ + pattern + "\""@
        }
    } else if name == "NotebookEdit"@ {
        let nb_path = jstr_or_empty(j, "notebook_path"@);
        let cell_id = jstr_or_empty(j, "cell_id"@);
        if cell_id.len() > 0 {
            "Notebook "@ + nb_path + " ("@ + cell_id + ")"@
        } else {
            "Notebook "@ + nb_path
        }
    } else if name == "WebSearch"@ {
        "Search: "@ + jstr_or_empty(j, "query"@)
    } else if name == "WebFetch"@ {
        "Fetch "@ + jstr_or_empty(j, "url"@)
    } else if name == "Task"@ {
        let desc = jstr_or_empty(j, "description"@);
        let subagent_type = jstr_or_empty(j, "subagent_type"@);
        if subagent_type.len() > 0 {
            "Task ["@ + subagent_type + "]: "@ + desc
        } else {
            "Task: "@ + desc
        }
    } else if name == "TaskOutput"@ {
        "Get task output: "@ + jstr_or_empty(j, "task_id"@)
    } else if name == "TaskStop"@ {
        "Stop task: "@ + jstr_or_empty(j, "task_id"@)
    } else if name == "TodoWrite"@ {
        match jget(j, "todos"@) {
            Some(Json::Array(ts)) => {
                let pending = spec_count_status(ts, "pending"@);
                let in_progress = spec_count_status(ts, "in_progress"@);
                let completed = spec_count_status(ts, "completed"@);
                "Todo: "@ + spec_u64_dec(pending as nat) + " pending, "@ + spec_u64_dec(
                    in_progress as nat,
                ) + " in progress, "@ + spec_u64_dec(completed as nat) + " completed"@
            },
            _ => "Update todos"@,
        }
    } else if name == "Skill"@ {
        "Skill: "@ + jstr_or_empty(j, "skill"@)
    } else if name == "AskUserQuestion"@ {
        match jget(j, "questions"@) {
            Some(Json::Array(qs)) => if qs.len() > 0 {
                spec_truncate(jstr_or_empty(qs[0], "question"@), 200)
            } else {
                "Ask user question"@
            },
            _ => "Ask user question"@,
        }
    } else if name == "ExitPlanMode"@ {
        "Exit plan mode"@
    } else if name == "EnterPlanMode"@ {
        "Enter plan mode"@
    } else if name == "TaskCreate"@ {
        "Create task: "@ + jstr_or_empty(j, "subject"@)
    } else if name == "TaskUpdate"@ {
        let task_id = jstr_or_empty(j, "taskId"@);
        let status = jstr_or_empty(j, "status"@);
        if status.len() > 0 {
            "Update task "@ + task_id + ": "@ + status
        } else {
            "Update task "@ + task_id
        }
    } else if name == "TaskGet"@ {
        "Get task: "@ + jstr_or_empty(j, "taskId"@)
    } else if name == "TaskList"@ {
        "List tasks"@
    } else {
        name + seq![' '] + spec_truncate(input, 200)
    }
}

/// The summary line for one tool invocation: tool inputs that are not
/// JSON objects fall back to the raw, truncated input text.
pub open spec fn spec_format_tool_input(name: Seq<char>, input: Seq<char>) -> Seq<char> {
    match spec_parse_json(input) {
        None => name + seq![' '] + spec_truncate(input, 200),
        Some(j) => spec_format_known_tool(name, input, j),
    }
}

/// Append the characters of a string member (empty where absent).
fn push_member(out: &mut Vec<char>, v: &serde_json::Value, key: &str)
    ensures
        final(out)@ == old(out)@ + jstr_or_empty(json_of(*v), key@),
{
    match crate::events::get_str(v, key) {
        Some(s) => {
            let mut sc = str_to_chars(s);
            out.append(&mut sc);
        }
        None => {
            assert(out@ =~= old(out)@ + jstr_or_empty(json_of(*v), key@));
        }
    }
}

/// Append the characters of a literal.
fn push_lit(out: &mut Vec<char>, lit: &str)
    ensures
        final(out)@ == old(out)@ + lit@,
{
    let mut sc = str_to_chars(lit);
    out.append(&mut sc);
}

/// The string member of `v` named `key`, as characters, empty if absent.
fn member_chars(v: &serde_json::Value, key: &str) -> (r: Vec<char>)
    ensures
        r@ == jstr_or_empty(json_of(*v), key@),
{
    match crate::events::get_str(v, key) {
        Some(s) => str_to_chars(s),
        None => {
            let r: Vec<char> = Vec::new();
            assert(r@ =~= jstr_or_empty(json_of(*v), key@));
            r
        }
    }
}

/// Format a tool's input JSON into the one-line summary the render loop
/// shows beside the tool-use marker.
pub fn format_tool_input(name: &str, input: &str) -> (r: String)
    ensures
        r@ == spec_format_tool_input(name@, input@),
{
    let parsed = crate::json::parse_json_line(input);
    let v = match parsed {
        None => {
            let mut out = str_to_chars(name);
            out.push(' ');
            let input_chars = str_to_chars(input);
            let mut t = truncate_chars(&input_chars, 200);
            out.append(&mut t);
            return string_of_chars(&out);
        }
        Some(v) => v,
    };
    let mut out: Vec<char> = Vec::new();
    if str_eq(name, "Bash") {
        let desc = member_chars(&v, "description");
        let cmd = member_chars(&v, "command");
        if desc.len() > 0 {
            let mut d = desc;
            out.append(&mut d);
            push_lit(&mut out, ": `");
            let mut t = truncate_chars(&cmd, 150);
            out.append(&mut t);
            push_lit(&mut out, "`");
        } else {
            push_lit(&mut out, "`");
            let mut t = truncate_chars(&cmd, 200);
            out.append(&mut t);
            push_lit(&mut out, "`");
        }
    } else if str_eq(name, "Read") {
        push_lit(&mut out, "Read ");
        push_member(&mut out, &v, "file_path");
    } else if str_eq(name, "Write") {
        let content = member_chars(&v, "content");
        let lines = split_lines(&content);
        push_lit(&mut out, "Write ");
        push_member(&mut out, &v, "file_path");
        if lines.len() > 0 {
            push_lit(&mut out, " (");
            let mut d = u64_dec_chars(lines.len() as u64);
            proof {
                assert(lines@.map_values(|l: Vec<char>| l@).len() == lines@.len());
            }
            out.append(&mut d);
            push_lit(&mut out, " lines)");
        }
    } else if str_eq(name, "Edit") {
        let replace_all = match value_get(&v, "replace_all") {
            Some(w) => match crate::json::value_as_bool(w) {
                Some(b) => b,
                None => false,
            },
            None => false,
        };
        push_lit(&mut out, "Edit ");
        push_member(&mut out, &v, "file_path");
        if replace_all {
            push_lit(&mut out, " (replace all)");
        }
    } else if str_eq(name, "Glob") {
        let path = member_chars(&v, "path");
        push_lit(&mut out, "Glob ");
        push_member(&mut out, &v, "pattern");
        if path.len() > 0 {
            push_lit(&mut out, " in ");
            let mut p = path;
            out.append(&mut p);
        }
    } else if str_eq(name, "Grep") {
        let path = member_chars(&v, "path");
        let output_mode = member_chars(&v, "output_mode");
        push_lit(&mut out, "Grep \"");
        push_member(&mut out, &v, "pattern");
        if path.len() > 0 {
            push_lit(&mut out, "\" in ");
            let mut p = path;
            out.append(&mut p);
            if output_mode.len() > 0 {
                push_lit(&mut out, " (");
                let mut m = output_mode;
                out.append(&mut m);
                push_lit(&mut out, ")");
            }
        } else {
            push_lit(&mut out, "\"");
        }
    } else if str_eq(name, "NotebookEdit") {
        let cell_id = member_chars(&v, "cell_id");
        push_lit(&mut out, "Notebook ");
        push_member(&mut out, &v, "notebook_path");
        if cell_id.len() > 0 {
            push_lit(&mut out, " (");
            let mut c = cell_id;
            out.append(&mut c);
            push_lit(&mut out, ")");
        }
    } else if str_eq(name, "WebSearch") {
        push_lit(&mut out, "Search: ");
        push_member(&mut out, &v, "query");
    } else if str_eq(name, "WebFetch") {
        push_lit(&mut out, "Fetch ");
        push_member(&mut out, &v, "url");
    } else if str_eq(name, "Task") {
        let subagent_type = member_chars(&v, "subagent_type");
        if subagent_type.len() > 0 {
            push_lit(&mut out, "Task [");
            let mut st = subagent_type;
            out.append(&mut st);
            push_lit(&mut out, "]: ");
        } else {
            push_lit(&mut out, "Task: ");
        }
        push_member(&mut out, &v, "description");
    } else if str_eq(name, "TaskOutput") {
        push_lit(&mut out, "Get task output: ");
        push_member(&mut out, &v, "task_id");
    } else if str_eq(name, "TaskStop") {
        push_lit(&mut out, "Stop task: ");
        push_member(&mut out, &v, "task_id");
    } else if str_eq(name, "TodoWrite") {
        let todos = match value_get(&v, "todos") {
            Some(w) => value_as_array(w),
            None => None,
        };
        match todos {
            Some(arr) => {
                let pending = count_status(arr, "pending");
                let in_progress = count_status(arr, "in_progress");
                let completed = count_status(arr, "completed");
                push_lit(&mut out, "Todo: ");
                let mut d1 = u64_dec_chars(pending as u64);
                out.append(&mut d1);
                push_lit(&mut out, " pending, ");
                let mut d2 = u64_dec_chars(in_progress as u64);
                out.append(&mut d2);
                push_lit(&mut out, " in progress, ");
                let mut d3 = u64_dec_chars(completed as u64);
                out.append(&mut d3);
                push_lit(&mut out, " completed");
            }
            None => {
                push_lit(&mut out, "Update todos");
            }
        }
    } else if str_eq(name, "Skill") {
        push_lit(&mut out, "Skill: ");
        push_member(&mut out, &v, "skill");
    } else if str_eq(name, "AskUserQuestion") {
        let questions = match value_get(&v, "questions") {
            Some(w) => value_as_array(w),
            None => None,
        };
        match questions {
            Some(qs) => {
                if qs.len() > 0 {
                    let q = member_chars(&qs[0], "question");
                    let mut t = truncate_chars(&q, 200);
                    out.append(&mut t);
                    proof {
                        let ghost models = qs@.map_values(|x: serde_json::Value| json_of(x));
                        assert(models[0] == json_of(qs@[0]));
                    }
                } else {
                    push_lit(&mut out, "Ask user question");
                }
            }
            None => {
                push_lit(&mut out, "Ask user question");
            }
        }
    } else if str_eq(name, "ExitPlanMode") {
        push_lit(&mut out, "Exit plan mode");
    } else if str_eq(name, "EnterPlanMode") {
        push_lit(&mut out, "Enter plan mode");
    } else if str_eq(name, "TaskCreate") {
        push_lit(&mut out, "Create task: ");
        push_member(&mut out, &v, "subject");
    } else if str_eq(name, "TaskUpdate") {
        let status = member_chars(&v, "status");
        push_lit(&mut out, "Update task ");
        push_member(&mut out, &v, "taskId");
        if status.len() > 0 {
            push_lit(&mut out, ": ");
            let mut st = status;
            out.append(&mut st);
        }
    } else if str_eq(name, "TaskGet") {
        push_lit(&mut out, "Get task: ");
        push_member(&mut out, &v, "taskId");
    } else if str_eq(name, "TaskList") {
        push_lit(&mut out, "List tasks");
    } else {
        let mut n = str_to_chars(name);
        out.append(&mut n);
        out.push(' ');
        let input_chars = str_to_chars(input);
        let mut t = truncate_chars(&input_chars, 200);
        out.append(&mut t);
    }
    proof {
        assert(out@ =~= spec_format_known_tool(name@, input@, crate::json::json_of(v)));
    }
    string_of_chars(&out)
}

} // verus!
