//! The render loop's text shaping: line normalization, byte-budget
//! truncation, the rotating progress indicator, and the terminal
//! renderings of a turn.

use vstd::prelude::*;

use crate::text::{
    byte_len, prefix_within_limit, str_to_chars,
    string_of_chars, subrange_chars,
};

verus! {

/// The position of the first occurrence of character `c` in `s`.
pub open spec fn spec_find_char(s: Seq<char>, c: char) -> Option<int>
    decreases s.len(),
{
    if s.len() == 0 {
        None
    } else if s[0] == c {
        Some(0int)
    } else {
        match spec_find_char(s.drop_first(), c) {
            Some(i) => Some(i + 1),
            None => None,
        }
    }
}

/// `spec_find_char` returns exactly the first occurrence.
pub proof fn lemma_spec_find_char(s: Seq<char>, c: char)
    ensures
        match spec_find_char(s, c) {
            Some(i) => 0 <= i < s.len() && s[i] == c && forall|j: int| 0 <= j < i ==> s[j] != c,
            None => forall|j: int| 0 <= j < s.len() ==> s[j] != c,
        },
    decreases s.len(),
{
    if s.len() == 0 {
    } else if s[0] == c {
    } else {
        let t = s.drop_first();
        lemma_spec_find_char(t, c);
        match spec_find_char(t, c) {
            Some(i) => {
                assert(s[i + 1] == t[i]);
                assert forall|j: int| 0 <= j < i + 1 implies s[j] != c by {
                    if j >= 1 {
                        assert(t[j - 1] != c);
                        assert(s[j] == t[j - 1]);
                    }
                }
            }
            None => {
                assert forall|j: int| 0 <= j < s.len() implies s[j] != c by {
                    if j >= 1 {
                        assert(t[j - 1] != c);
                        assert(s[j] == t[j - 1]);
                    }
                }
            }
        }
    }
}

/// The position of the last occurrence of character `c` in `s`.
pub open spec fn spec_rfind_char(s: Seq<char>, c: char) -> Option<int>
    decreases s.len(),
{
    if s.len() == 0 {
        None
    } else if s[s.len() - 1] == c {
        Some(s.len() - 1)
    } else {
        spec_rfind_char(s.drop_last(), c)
    }
}

pub proof fn lemma_spec_rfind_char(s: Seq<char>, c: char)
    ensures
        match spec_rfind_char(s, c) {
            Some(i) => 0 <= i < s.len() && s[i] == c && forall|j: int| i < j < s.len() ==> s[j]
                != c,
            None => forall|j: int| 0 <= j < s.len() ==> s[j] != c,
        },
    decreases s.len(),
{
    if s.len() == 0 {
    } else if s[s.len() - 1] == c {
    } else {
        let t = s.drop_last();
        lemma_spec_rfind_char(t, c);
        match spec_rfind_char(t, c) {
            Some(i) => {
                assert(s[i] == t[i]);
                assert forall|j: int| i < j < s.len() implies s[j] != c by {
                    if j < s.len() - 1 {
                        assert(t[j] != c);
                        assert(s[j] == t[j]);
                    }
                }
            }
            None => {
                assert forall|j: int| 0 <= j < s.len() implies s[j] != c by {
                    if j < s.len() - 1 {
                        assert(t[j] != c);
                        assert(s[j] == t[j]);
                    }
                }
            }
        }
    }
}

/// Find the last occurrence of `c` in `v`.
pub fn rfind_char(v: &Vec<char>, c: char) -> (r: Option<usize>)
    ensures
        match r {
            Some(i) => spec_rfind_char(v@, c) == Some(i as int),
            None => spec_rfind_char(v@, c) is None,
        },
{
    let mut i: usize = v.len();
    while i > 0
        invariant
            i <= v@.len(),
            forall|j: int| i <= j < v@.len() ==> v@[j] != c,
        decreases i,
    {
        i = i - 1;
        if v[i] == c {
            proof {
                lemma_spec_rfind_char(v@, c);
                match spec_rfind_char(v@, c) {
                    Some(k) => {
                        if k < i {
                            assert(v@[i as int] == c);
                        } else if k > i {
                            assert(v@[k] != c);
                        }
                    }
                    None => {
                        assert(v@[i as int] != c);
                    }
                }
            }
            return Some(i);
        }
    }
    proof {
        lemma_spec_rfind_char(v@, c);
        match spec_rfind_char(v@, c) {
            Some(k) => {
                assert(v@[k] != c);
            }
            None => {}
        }
    }
    None
}

/// A line segment with one trailing carriage return removed, as
/// `str::lines` hands lines out.
pub open spec fn strip_cr(seg: Seq<char>) -> Seq<char> {
    if seg.len() > 0 && seg[seg.len() - 1] == '\r' {
        seg.drop_last()
    } else {
        seg
    }
}

/// The lines of `s`, split on newline characters, each with a trailing
/// carriage return removed; text after the final newline forms a last
/// line only if non-empty.
pub open spec fn spec_lines(s: Seq<char>) -> Seq<Seq<char>>
    decreases s.len(),
    via spec_lines_decreases
{
    if s.len() == 0 {
        Seq::empty()
    } else {
        match spec_find_char(s, '\n') {
            None => seq![strip_cr(s)],
            Some(i) => seq![strip_cr(s.take(i))] + spec_lines(s.skip(i + 1)),
        }
    }
}

#[via_fn]
proof fn spec_lines_decreases(s: Seq<char>) {
    lemma_spec_find_char(s, '\n');
}

/// Split `v` into its lines.
pub fn split_lines(v: &Vec<char>) -> (r: Vec<Vec<char>>)
    ensures
        r@.map_values(|l: Vec<char>| l@) == spec_lines(v@),
{
    let mut r: Vec<Vec<char>> = Vec::new();
    let mut start: usize = 0;
    proof {
        assert(v@.skip(0) =~= v@);
        assert(r@.map_values(|l: Vec<char>| l@) =~= Seq::<Seq<char>>::empty());
    }
    loop
        invariant_except_break
            spec_lines(v@) == r@.map_values(|l: Vec<char>| l@) + spec_lines(v@.skip(start as int)),
        invariant
            start <= v@.len(),
        ensures
            r@.map_values(|l: Vec<char>| l@) == spec_lines(v@),
        decreases v@.len() - start,
    {
        let ghost rem = v@.skip(start as int);
        proof {
            lemma_spec_find_char(rem, '\n');
        }
        if start == v.len() {
            proof {
                assert(rem.len() == 0);
                assert(spec_lines(rem) =~= Seq::<Seq<char>>::empty());
                assert(r@.map_values(|l: Vec<char>| l@) + spec_lines(rem) =~= r@.map_values(
                    |l: Vec<char>| l@,
                ));
            }
            break;
        }
        // find the next newline at or after `start`
        let mut i: usize = start;
        let mut found = false;
        while i < v.len() && !found
            invariant
                start <= i <= v@.len(),
                found ==> i < v@.len() && v@[i as int] == '\n',
                forall|j: int| start <= j < i ==> v@[j] != '\n',
            decreases v@.len() - i + (if found { 0int } else { 1int }),
        {
            if v[i] == '\n' {
                found = true;
            } else {
                i = i + 1;
            }
        }
        if found {
            proof {
                assert(rem[i - start] == '\n');
                assert forall|j: int| 0 <= j < i - start implies rem[j] != '\n' by {
                    assert(rem[j] == v@[start + j]);
                }
                match spec_find_char(rem, '\n') {
                    Some(k) => {
                        if k < i - start {
                            assert(rem[k] != '\n');
                        } else if k > i - start {
                            assert(rem[i - start] != '\n');
                        }
                    }
                    None => {
                        assert(rem[i - start] != '\n');
                    }
                }
                assert(spec_find_char(rem, '\n') == Some(i - start as int));
            }
            let mut seg = subrange_chars(v, start, i);
            if seg.len() > 0 && seg[seg.len() - 1] == '\r' {
                seg.pop();
            }
            proof {
                assert(rem.take(i - start as int) =~= v@.subrange(start as int, i as int));
                if v@.subrange(start as int, i as int).len() > 0 && v@.subrange(
                    start as int,
                    i as int,
                )[i - start - 1] == '\r' {
                    assert(seg@ =~= strip_cr(rem.take(i - start as int)));
                } else {
                    assert(seg@ =~= strip_cr(rem.take(i - start as int)));
                }
            }
            r.push(seg);
            let ghost old_start = start as int;
            start = i + 1;
            proof {
                assert(rem.skip(i - old_start + 1) =~= v@.skip(start as int));
                assert(spec_lines(rem) == seq![strip_cr(rem.take(i - old_start))] + spec_lines(
                    v@.skip(start as int),
                ));
                assert(r@.map_values(|l: Vec<char>| l@) + spec_lines(v@.skip(start as int))
                    =~= spec_lines(v@));
            }
        } else {
            proof {
                assert forall|j: int| 0 <= j < rem.len() implies rem[j] != '\n' by {
                    assert(rem[j] == v@[start + j]);
                }
                match spec_find_char(rem, '\n') {
                    Some(k) => {
                        assert(rem[k] != '\n');
                    }
                    None => {}
                }
                assert(spec_find_char(rem, '\n') is None);
            }
            let mut seg = subrange_chars(v, start, v.len());
            if seg.len() > 0 && seg[seg.len() - 1] == '\r' {
                seg.pop();
            }
            proof {
                assert(v@.subrange(start as int, v@.len() as int) =~= rem);
                assert(seg@ =~= strip_cr(rem));
                assert(spec_lines(rem) =~= seq![strip_cr(rem)]);
            }
            r.push(seg);
            proof {
                assert(r@.map_values(|l: Vec<char>| l@) =~= spec_lines(v@));
            }
            break;
        }
    }
    r
}

/// One step of empty-line normalization: an empty line contributes one
/// separating newline (collapsing runs), a non-empty line is appended
/// after a newline unless it is the first content.
pub open spec fn nel_step(st: (Seq<char>, bool), line: Seq<char>) -> (Seq<char>, bool) {
    if line.len() == 0 {
        (
            if !st.1 {
                st.0 + seq!['\n']
            } else {
                st.0
            },
            true,
        )
    } else {
        (
            (if st.0.len() > 0 {
                st.0 + seq!['\n']
            } else {
                st.0
            }) + line,
            false,
        )
    }
}

/// `nel_step` folded over a sequence of lines.
pub open spec fn nel_fold(st: (Seq<char>, bool), lines: Seq<Seq<char>>) -> (Seq<char>, bool)
    decreases lines.len(),
{
    if lines.len() == 0 {
        st
    } else {
        nel_fold(nel_step(st, lines[0]), lines.drop_first())
    }
}

proof fn lemma_nel_fold_snoc(st: (Seq<char>, bool), lines: Seq<Seq<char>>, line: Seq<char>)
    ensures
        nel_fold(st, lines.push(line)) == nel_step(nel_fold(st, lines), line),
    decreases lines.len(),
{
    if lines.len() == 0 {
        assert(lines.push(line)[0] == line);
        assert(lines.push(line).drop_first() =~= Seq::<Seq<char>>::empty());
        assert(nel_fold(nel_step(st, line), Seq::<Seq<char>>::empty()) == nel_step(st, line));
        assert(nel_fold(st, Seq::<Seq<char>>::empty()) == st);
    } else {
        assert(lines.push(line)[0] == lines[0]);
        assert(lines.push(line).drop_first() =~= lines.drop_first().push(line));
        lemma_nel_fold_snoc(nel_step(st, lines[0]), lines.drop_first(), line);
    }
}

/// Consecutive empty lines collapsed to at most one.
pub open spec fn spec_normalize_empty_lines(s: Seq<char>) -> Seq<char> {
    nel_fold((Seq::empty(), false), spec_lines(s)).0
}

/// Normalize consecutive empty lines to a maximum of one.
pub fn normalize_empty_lines(s: &str) -> (r: String)
    ensures
        r@ == spec_normalize_empty_lines(s@),
{
    let chars = str_to_chars(s);
    let lines = split_lines(&chars);
    let ghost ls = lines@.map_values(|l: Vec<char>| l@);
    let mut result: Vec<char> = Vec::new();
    let mut prev_was_empty = false;
    let mut i: usize = 0;
    proof {
        assert(ls.take(0) =~= Seq::<Seq<char>>::empty());
    }
    while i < lines.len()
        invariant
            i <= lines@.len(),
            ls == lines@.map_values(|l: Vec<char>| l@),
            ls.len() == lines@.len(),
            forall|k: int| 0 <= k < ls.len() ==> ls[k] == lines@[k]@,
            (result@, prev_was_empty) == nel_fold(
                (Seq::<char>::empty(), false),
                ls.take(i as int),
            ),
        decreases lines@.len() - i,
    {
        proof {
            lemma_nel_fold_snoc((Seq::<char>::empty(), false), ls.take(i as int), ls[i as int]);
            assert(ls.take(i + 1 as int) =~= ls.take(i as int).push(ls[i as int]));
        }
        let line = &lines[i];
        if line.len() == 0 {
            if !prev_was_empty {
                result.push('\n');
            }
            prev_was_empty = true;
        } else {
            if result.len() > 0 {
                result.push('\n');
            }
            let mut lc = subrange_chars(line, 0, line.len());
            proof {
                assert(lc@ =~= line@);
            }
            result.append(&mut lc);
            prev_was_empty = false;
        }
        proof {
            assert((result@, prev_was_empty) =~~= nel_fold(
                (Seq::<char>::empty(), false),
                ls.take(i + 1 as int),
            ));
        }
        i = i + 1;
    }
    proof {
        assert(ls.take(ls.len() as int) =~= ls);
    }
    string_of_chars(&result)
}

/// The longest prefix of `s` that fits in `max` UTF-8 bytes, cut back to
/// the end of its last whole line where one exists; `s` itself when it
/// already fits.
pub open spec fn spec_truncate(s: Seq<char>, max: nat) -> Seq<char> {
    if byte_len(s) <= max {
        s
    } else {
        let p = crate::session::spec_byte_prefix(s, max);
        match spec_rfind_char(p, '\n') {
            Some(i) => p.take(i),
            None => p,
        }
    }
}

/// Truncate a string to at most `max_len` UTF-8 bytes, cutting at a
/// character boundary, and back to the last line break where one exists.
pub fn truncate_chars(v: &Vec<char>, max_len: usize) -> (r: Vec<char>)
    requires
        max_len <= usize::MAX - 4,
    ensures
        r@ == spec_truncate(v@, max_len as nat),
{
    let exceeded = crate::text::byte_len_exceeds(v, max_len);
    if !exceeded {
        let r = subrange_chars(v, 0, v.len());
        proof {
            assert(r@ =~= v@);
        }
        return r;
    }
    let (k, _) = prefix_within_limit(v, max_len);
    proof {
        crate::session::lemma_byte_prefix_at_pub(v@, max_len as nat, k as int);
    }
    let truncated = subrange_chars(v, 0, k);
    proof {
        assert(truncated@ =~= v@.take(k as int));
    }
    proof {
        lemma_spec_rfind_char(truncated@, '\n');
    }
    match rfind_char(&truncated, '\n') {
        Some(pos) => {
            let r = subrange_chars(&truncated, 0, pos);
            proof {
                assert(r@ =~= truncated@.take(pos as int));
            }
            r
        }
        None => truncated,
    }
}

/// Truncate a string to `max_len` bytes, as [`truncate_chars`] does.
pub fn truncate_str(s: &str, max_len: usize) -> (r: String)
    requires
        max_len <= usize::MAX - 4,
    ensures
        r@ == spec_truncate(s@, max_len as nat),
{
    let v = str_to_chars(s);
    let t = truncate_chars(&v, max_len);
    string_of_chars(&t)
}

} // verus!

verus! {

/// The chat transport's message length limit, in bytes.
pub const TELEGRAM_MSG_LIMIT: usize = 4096;

/// The accumulating state of one turn's render loop.
pub struct TurnRender {
    /// Accumulated assistant text with inline annotations.
    pub full_response: String,
    /// The session id learned from the event stream, if any.
    pub new_session_id: Option<String>,
    /// Whether a terminal event has been seen.
    pub done: bool,
}

/// The model of a render-loop state.
pub open spec fn turn_model(t: TurnRender) -> (Seq<char>, Option<Seq<char>>, bool) {
    (
        t.full_response@,
        match t.new_session_id {
            Some(s) => Some(s@),
            None => None,
        },
        t.done,
    )
}

impl TurnRender {
    /// A fresh render state for a new turn.
    pub fn new() -> (t: Self)
        ensures
            turn_model(t) == (Seq::<char>::empty(), None::<Seq<char>>, false),
    {
        let t = TurnRender { full_response: "".to_owned(), new_session_id: None, done: false };
        proof {
            reveal_strlit("");
            assert(""@ =~= Seq::<char>::empty());
        }
        t
    }
}

/// The inline annotation one tool result contributes: errors show a
/// cross and up to 500 bytes, successful non-empty output up to 300
/// bytes; multi-line output is fenced, single lines are quoted.
pub open spec fn spec_tool_result_fragment(content: Seq<char>, is_error: bool) -> Seq<char> {
    if is_error {
        let truncated = spec_truncate(content, 500);
        if spec_find_char(truncated, '\n') is Some {
            "\n\u{274c}\n```\n"@ + truncated + "\n```\n"@
        } else {
            "\n\u{274c} `"@ + truncated + "`\n\n"@
        }
    } else {
        let truncated = spec_truncate(content, 300);
        if spec_find_char(truncated, '\n') is Some {
            "\n```\n"@ + truncated + "\n```\n"@
        } else {
            "\n\u{2705} `"@ + truncated + "`\n\n"@
        }
    }
}

/// How one normalized event advances the render state: text accumulates,
/// tool activity appends inline annotations, `Done` keeps a non-empty
/// result where nothing accumulated and ends the turn, an error replaces
/// the text and ends the turn.
pub open spec fn spec_render_step(
    st: (Seq<char>, Option<Seq<char>>, bool),
    e: crate::events::EventSpec,
) -> (Seq<char>, Option<Seq<char>>, bool) {
    match e {
        crate::events::EventSpec::Init { session_id } => (st.0, Some(session_id), st.2),
        crate::events::EventSpec::Text { content } => (st.0 + content, st.1, st.2),
        crate::events::EventSpec::ToolUse { name, input } => (
            st.0 + "\n\n\u{2699}\u{fe0f} "@ + crate::tools::spec_format_tool_input(name, input)
                + "\n"@,
            st.1,
            st.2,
        ),
        crate::events::EventSpec::ToolResult { content, is_error } => (
            if is_error || content.len() > 0 {
                st.0 + spec_tool_result_fragment(content, is_error)
            } else {
                st.0
            },
            st.1,
            st.2,
        ),
        crate::events::EventSpec::TaskNotification { task_id, status, summary } => (
            if summary.len() > 0 {
                st.0 + "\n[Task: "@ + summary + "]\n"@
            } else {
                st.0
            },
            st.1,
            st.2,
        ),
        crate::events::EventSpec::Done { result, session_id } => (
            if result.len() > 0 && st.0.len() == 0 {
                result
            } else {
                st.0
            },
            match session_id {
                Some(s) => Some(s),
                None => st.1,
            },
            true,
        ),
        crate::events::EventSpec::Error { message } => ("Error: "@ + message, st.1, true),
    }
}

/// Append the characters of a literal to the buffer.
fn push_frag(out: &mut Vec<char>, lit: &str)
    ensures
        final(out)@ == old(out)@ + lit@,
{
    let mut sc = str_to_chars(lit);
    out.append(&mut sc);
}

/// Advance the render state by one drained event.
///
/// This is the body of the render loop's drain phase; every event the
/// attempt forwards passes through here exactly once, in order.
pub fn apply_event(t: &mut TurnRender, msg: &crate::events::StreamMessage)
    ensures
        turn_model(*final(t)) == spec_render_step(turn_model(*old(t)), msg@),
{
    match msg {
        crate::events::StreamMessage::Init { session_id } => {
            t.new_session_id = Some(session_id.clone());
        }
        crate::events::StreamMessage::Text { content } => {
            let mut buf = str_to_chars(t.full_response.as_str());
            let mut cc = str_to_chars(content.as_str());
            buf.append(&mut cc);
            t.full_response = string_of_chars(&buf);
        }
        crate::events::StreamMessage::ToolUse { name, input } => {
            let summary = crate::tools::format_tool_input(name.as_str(), input.as_str());
            let mut buf = str_to_chars(t.full_response.as_str());
            push_frag(&mut buf, "\n\n\u{2699}\u{fe0f} ");
            let mut sc = str_to_chars(summary.as_str());
            buf.append(&mut sc);
            push_frag(&mut buf, "\n");
            t.full_response = string_of_chars(&buf);
        }
        crate::events::StreamMessage::ToolResult { content, is_error } => {
            let content_chars = str_to_chars(content.as_str());
            if *is_error {
                let mut buf = str_to_chars(t.full_response.as_str());
                let truncated = truncate_chars(&content_chars, 500);
                let has_newline = match rfind_char(&truncated, '\n') {
                    Some(_) => true,
                    None => false,
                };
                proof {
                    lemma_spec_rfind_char(truncated@, '\n');
                    lemma_spec_find_char(truncated@, '\n');
                    match spec_rfind_char(truncated@, '\n') {
                        Some(i) => {
                            match spec_find_char(truncated@, '\n') {
                                Some(_) => {}
                                None => {
                                    assert(truncated@[i] != '\n');
                                }
                            }
                        }
                        None => {
                            match spec_find_char(truncated@, '\n') {
                                Some(k) => {
                                    assert(truncated@[k] != '\n');
                                }
                                None => {}
                            }
                        }
                    }
                }
                if has_newline {
                    push_frag(&mut buf, "\n\u{274c}\n```\n");
                    let mut tc = clone_chars(&truncated);
                    buf.append(&mut tc);
                    push_frag(&mut buf, "\n```\n");
                } else {
                    push_frag(&mut buf, "\n\u{274c} `");
                    let mut tc = clone_chars(&truncated);
                    buf.append(&mut tc);
                    push_frag(&mut buf, "`\n\n");
                }
                t.full_response = string_of_chars(&buf);
            } else if content_chars.len() > 0 {
                let mut buf = str_to_chars(t.full_response.as_str());
                let truncated = truncate_chars(&content_chars, 300);
                let has_newline = match rfind_char(&truncated, '\n') {
                    Some(_) => true,
                    None => false,
                };
                proof {
                    lemma_spec_rfind_char(truncated@, '\n');
                    lemma_spec_find_char(truncated@, '\n');
                    match spec_rfind_char(truncated@, '\n') {
                        Some(i) => {
                            match spec_find_char(truncated@, '\n') {
                                Some(_) => {}
                                None => {
                                    assert(truncated@[i] != '\n');
                                }
                            }
                        }
                        None => {
                            match spec_find_char(truncated@, '\n') {
                                Some(k) => {
                                    assert(truncated@[k] != '\n');
                                }
                                None => {}
                            }
                        }
                    }
                }
                if has_newline {
                    push_frag(&mut buf, "\n```\n");
                    let mut tc = clone_chars(&truncated);
                    buf.append(&mut tc);
                    push_frag(&mut buf, "\n```\n");
                } else {
                    push_frag(&mut buf, "\n\u{2705} `");
                    let mut tc = clone_chars(&truncated);
                    buf.append(&mut tc);
                    push_frag(&mut buf, "`\n\n");
                }
                t.full_response = string_of_chars(&buf);
            }
        }
        crate::events::StreamMessage::TaskNotification { task_id, status, summary } => {
            let summary_chars = str_to_chars(summary.as_str());
            if summary_chars.len() > 0 {
                let mut buf = str_to_chars(t.full_response.as_str());
                push_frag(&mut buf, "\n[Task: ");
                let mut sc = clone_chars(&summary_chars);
                buf.append(&mut sc);
                push_frag(&mut buf, "]\n");
                t.full_response = string_of_chars(&buf);
            }
        }
        crate::events::StreamMessage::Done { result, session_id } => {
            if result.as_str().unicode_len() > 0 && t.full_response.as_str().unicode_len() == 0 {
                t.full_response = result.clone();
            }
            if let Some(s) = session_id {
                t.new_session_id = Some(s.clone());
            }
            t.done = true;
        }
        crate::events::StreamMessage::Error { message } => {
            let mut buf = str_to_chars("Error: ");
            let mut mc = str_to_chars(message.as_str());
            buf.append(&mut mc);
            t.full_response = string_of_chars(&buf);
            t.done = true;
        }
    }
}

/// Copy a character vector.
fn clone_chars(v: &Vec<char>) -> (r: Vec<char>)
    ensures
        r@ == v@,
{
    subrange_chars(v, 0, v.len())
}

/// The rotating progress indicator, one frame per poll.
pub open spec fn spec_spinner(i: int) -> Seq<char> {
    let k = i % 12;
    if k == 0 {
        "P"@
    } else if k == 1 {
        "Pr"@
    } else if k == 2 {
        "Pro"@
    } else if k == 3 {
        "Proc"@
    } else if k == 4 {
        "Proce"@
    } else if k == 5 {
        "Proces"@
    } else if k == 6 {
        "Process"@
    } else if k == 7 {
        "Processi"@
    } else if k == 8 {
        "Processin"@
    } else if k == 9 {
        "Processing"@
    } else if k == 10 {
        "Processing."@
    } else {
        "Processing.."@
    }
}

/// The spinner frame for one poll round.
pub fn spinner_frame(i: usize) -> (r: &'static str)
    ensures
        r@ == spec_spinner(i as int),
{
    let k = i % 12;
    if k == 0 {
        "P"
    } else if k == 1 {
        "Pr"
    } else if k == 2 {
        "Pro"
    } else if k == 3 {
        "Proc"
    } else if k == 4 {
        "Proce"
    } else if k == 5 {
        "Proces"
    } else if k == 6 {
        "Process"
    } else if k == 7 {
        "Processi"
    } else if k == 8 {
        "Processin"
    } else if k == 9 {
        "Processing"
    } else if k == 10 {
        "Processing."
    } else {
        "Processing.."
    }
}

/// The in-progress display text: the spinner alone while nothing has
/// accumulated, else the normalized, truncated text with the spinner
/// appended after a blank line.
pub open spec fn spec_display_text(full: Seq<char>, spin_idx: int) -> Seq<char> {
    let indicator = spec_spinner(spin_idx);
    if full.len() == 0 {
        indicator
    } else {
        let normalized = spec_normalize_empty_lines(full);
        let truncated = spec_truncate(normalized, (TELEGRAM_MSG_LIMIT - 20) as nat);
        truncated + "\n\n"@ + indicator
    }
}

/// Compute the display text for one poll round.
pub fn display_text(t: &TurnRender, spin_idx: usize) -> (r: String)
    ensures
        r@ == spec_display_text(t.full_response@, spin_idx as int),
{
    let indicator = spinner_frame(spin_idx);
    if t.full_response.as_str().unicode_len() == 0 {
        indicator.to_owned()
    } else {
        let normalized = normalize_empty_lines(t.full_response.as_str());
        let normalized_chars = str_to_chars(normalized.as_str());
        let truncated = truncate_chars(&normalized_chars, TELEGRAM_MSG_LIMIT - 20);
        let mut out = clone_chars(&truncated);
        push_frag(&mut out, "\n\n");
        let mut ic = str_to_chars(indicator);
        out.append(&mut ic);
        string_of_chars(&out)
    }
}

/// What the render loop does after a poll round: push an edit when the
/// display changed and the turn is still running, signal liveness when it
/// did not, and fall through to finalization on a finished turn.
#[derive(Debug, Clone, Copy, PartialEq, Eq, Structural)]
pub enum RenderAction {
    /// Update the in-progress message with the new display text.
    Edit,
    /// Nothing new to show; send a lightweight liveness signal.
    Liveness,
    /// The turn ended; run finalization instead.
    Finished,
}

/// Decide the action for one poll round.
pub fn next_render_action(display: &String, last_edit: &String, done: bool) -> (a: RenderAction)
    ensures
        a == (if done {
            RenderAction::Finished
        } else if display@ != last_edit@ {
            RenderAction::Edit
        } else {
            RenderAction::Liveness
        }),
{
    if done {
        RenderAction::Finished
    } else if !crate::text::str_eq(display.as_str(), last_edit.as_str()) {
        RenderAction::Edit
    } else {
        RenderAction::Liveness
    }
}

/// The marker appended to a cancelled turn's rendering.
pub open spec fn stopped_marker() -> Seq<char> {
    "[Stopped]"@
}

/// The terminal rendering of a cancelled turn: the normalized partial
/// text, a blank line, and the stopped marker; the marker alone when
/// nothing but whitespace accumulated.
pub open spec fn spec_stopped_response(full: Seq<char>) -> Seq<char> {
    if crate::text::spec_trim(full).len() == 0 {
        stopped_marker()
    } else {
        spec_normalize_empty_lines(full) + "\n\n"@ + stopped_marker()
    }
}

/// Render the terminal text of a cancelled turn.
pub fn stopped_response(full: &String) -> (r: String)
    ensures
        r@ == spec_stopped_response(full@),
{
    let chars = str_to_chars(full.as_str());
    let trimmed = crate::text::trim_chars(&chars);
    if trimmed.len() == 0 {
        "[Stopped]".to_owned()
    } else {
        let normalized = normalize_empty_lines(full.as_str());
        let mut out = str_to_chars(normalized.as_str());
        push_frag(&mut out, "\n\n");
        push_frag(&mut out, "[Stopped]");
        string_of_chars(&out)
    }
}

/// The terminal rendering of a completed turn: the normalized accumulated
/// text, or the normalized no-response placeholder where nothing was
/// produced.
pub open spec fn spec_final_response(full: Seq<char>) -> Seq<char> {
    if full.len() == 0 {
        spec_normalize_empty_lines(crate::i18n::MSG_NO_RESPONSE@)
    } else {
        spec_normalize_empty_lines(full)
    }
}

/// Render the terminal text of a completed or errored turn.
pub fn final_response(full: &String) -> (r: String)
    ensures
        r@ == spec_final_response(full@),
{
    if full.as_str().unicode_len() == 0 {
        normalize_empty_lines(crate::i18n::MSG_NO_RESPONSE)
    } else {
        normalize_empty_lines(full.as_str())
    }
}

/// A cancelled turn's rendering carries the accumulated partial text and
/// ends with the stopped marker: whenever anything non-blank accumulated,
/// the rendering is exactly that text (normalized) followed by a blank
/// line and the marker.
pub proof fn lemma_stopped_rendering_shape(full: Seq<char>)
    requires
        crate::text::spec_trim(full).len() > 0,
    ensures
        spec_stopped_response(full) == spec_normalize_empty_lines(full) + "\n\n"@
            + stopped_marker(),
        stopped_marker().is_suffix_of(spec_stopped_response(full)),
{
    let r = spec_stopped_response(full);
    assert(r.subrange(r.len() - stopped_marker().len(), r.len() as int) =~= stopped_marker());
}

} // verus!

verus! {

/// The position of the last occurrence of `p` in `s`, if any.
pub open spec fn spec_rfind_sub(s: Seq<char>, p: Seq<char>) -> Option<int>
    decreases s.len(),
        when p.len() >= 1
{
    if s.len() < p.len() {
        None
    } else if crate::text::has_sub_at(s, p, s.len() - p.len()) {
        Some(s.len() - p.len())
    } else {
        spec_rfind_sub(s.drop_last(), p)
    }
}

/// `spec_rfind_sub` returns exactly the last occurrence.
pub proof fn lemma_spec_rfind_sub(s: Seq<char>, p: Seq<char>)
    requires
        p.len() >= 1,
    ensures
        match spec_rfind_sub(s, p) {
            Some(i) => crate::text::has_sub_at(s, p, i) && forall|j: int|
                i < j ==> !crate::text::has_sub_at(s, p, j),
            None => forall|j: int| !crate::text::has_sub_at(s, p, j),
        },
    decreases s.len(),
{
    if s.len() < p.len() {
    } else if crate::text::has_sub_at(s, p, s.len() - p.len()) {
        assert forall|j: int| s.len() - p.len() < j implies !crate::text::has_sub_at(s, p, j) by {}
    } else {
        let t = s.drop_last();
        lemma_spec_rfind_sub(t, p);
        assert forall|j: int| 0 <= j && j + p.len() <= t.len() implies (crate::text::has_sub_at(
            s,
            p,
            j,
        ) == crate::text::has_sub_at(t, p, j)) by {
            assert(s.subrange(j, j + p.len() as int) =~= t.subrange(j, j + p.len() as int));
        }
        match spec_rfind_sub(t, p) {
            Some(i) => {
                assert forall|j: int| i < j implies !crate::text::has_sub_at(s, p, j) by {
                    if 0 <= j && j + p.len() <= t.len() {
                        assert(!crate::text::has_sub_at(t, p, j));
                    }
                }
            }
            None => {
                assert forall|j: int| !crate::text::has_sub_at(s, p, j) by {
                    if 0 <= j && j + p.len() <= t.len() {
                        assert(!crate::text::has_sub_at(t, p, j));
                    }
                }
            }
        }
    }
}

/// Find the last occurrence of `p` in `s`.
pub fn rfind_sub(s: &Vec<char>, p: &Vec<char>) -> (r: Option<usize>)
    requires
        p@.len() >= 1,
    ensures
        match r {
            Some(i) => spec_rfind_sub(s@, p@) == Some(i as int),
            None => spec_rfind_sub(s@, p@) is None,
        },
{
    proof {
        lemma_spec_rfind_sub(s@, p@);
    }
    if p.len() > s.len() {
        proof {
            match spec_rfind_sub(s@, p@) {
                Some(i) => {
                    assert(crate::text::has_sub_at(s@, p@, i));
                }
                None => {}
            }
        }
        return None;
    }
    let mut i: usize = s.len() - p.len() + 1;
    while i > 0
        invariant
            i <= s@.len() - p@.len() + 1,
            p@.len() >= 1,
            p@.len() <= s@.len(),
            forall|j: int| i <= j ==> !crate::text::has_sub_at(s@, p@, j),
        decreases i,
    {
        i = i - 1;
        let mut k: usize = 0;
        while k < p.len() && s[i + k] == p[k]
            invariant
                k <= p@.len(),
                i + p@.len() <= s@.len(),
                s@.len() == s.len() && p@.len() == p.len(),
                forall|t: int| 0 <= t < k ==> s@[i + t] == p@[t],
            decreases p.len() - k,
        {
            k = k + 1;
        }
        if k == p.len() {
            proof {
                assert(s@.subrange(i as int, i + p@.len() as int) =~= p@);
                lemma_spec_rfind_sub(s@, p@);
                match spec_rfind_sub(s@, p@) {
                    Some(m) => {
                        if m > i {
                            assert(!crate::text::has_sub_at(s@, p@, m));
                        } else if m < i {
                            assert(!crate::text::has_sub_at(s@, p@, i as int));
                        }
                    }
                    None => {
                        assert(!crate::text::has_sub_at(s@, p@, i as int));
                    }
                }
            }
            return Some(i);
        }
        proof {
            assert(!crate::text::has_sub_at(s@, p@, i as int)) by {
                assert(s@[i + k] != p@[k as int]);
                if s@.subrange(i as int, i + p@.len() as int) == p@ {
                    assert(s@.subrange(i as int, i + p@.len() as int)[k as int] == p@[k as int]);
                }
            }
        }
    }
    proof {
        lemma_spec_rfind_sub(s@, p@);
        match spec_rfind_sub(s@, p@) {
            Some(m) => {
                assert(!crate::text::has_sub_at(s@, p@, m));
            }
            None => {}
        }
    }
    None
}

} // verus!

verus! {

/// Whether the text is inside an unclosed `<pre>` block after `raw`,
/// given the state it started in: decided by whichever of `<pre>` and
/// `</pre>` occurs last.
pub open spec fn spec_pre_state_after(raw: Seq<char>, in_pre: bool) -> bool {
    match (spec_rfind_sub(raw, "<pre>"@), spec_rfind_sub(raw, "</pre>"@)) {
        (Some(o), Some(c)) => o > c,
        (Some(o), None) => true,
        (None, Some(c)) => false,
        (None, None) => in_pre,
    }
}

/// One character never takes more bytes than the transport limit allows.
proof fn lemma_first_char_fits(s: Seq<char>, limit: nat)
    requires
        s.len() >= 1,
        limit >= 4,
    ensures
        crate::session::spec_byte_prefix(s, limit).len() >= 1,
    decreases s.len(),
{
    assert(byte_len(s.take(1)) <= 4) by {
        let s1 = s.take(1);
        assert(s1.drop_first() =~= Seq::<char>::empty());
        assert(vstd::utf8::encode_utf8(Seq::<char>::empty()) =~= Seq::<u8>::empty());
        assert(vstd::utf8::encode_utf8(s1) =~= vstd::utf8::encode_scalar(s1[0] as u32)
            + vstd::utf8::encode_utf8(s1.drop_first()));
    }
    if byte_len(s) <= limit {
    } else {
        assert(s.len() > 1) by {
            if s.len() == 1 {
                assert(s.take(1) =~= s);
            }
        }
        let t = s.drop_last();
        assert(t.take(1) =~= s.take(1));
        lemma_first_char_fits(t, limit);
    }
}

/// The byte-budget prefix is a prefix, and never longer than the whole.
proof fn lemma_byte_prefix_is_prefix(s: Seq<char>, limit: nat)
    ensures
        crate::session::spec_byte_prefix(s, limit).len() <= s.len(),
        crate::session::spec_byte_prefix(s, limit) == s.take(
            crate::session::spec_byte_prefix(s, limit).len() as int,
        ),
    decreases s.len(),
{
    if byte_len(s) <= limit {
        assert(s.take(s.len() as int) =~= s);
    } else if s.len() == 0 {
        assert(s.take(0) =~= s);
    } else {
        let t = s.drop_last();
        lemma_byte_prefix_is_prefix(t, limit);
        let p = crate::session::spec_byte_prefix(t, limit);
        assert(t.take(p.len() as int) =~= s.take(p.len() as int));
    }
}

/// How one oversized text is split for the transport: each chunk takes
/// as much as fits in the limit (minus room to reopen a `<pre>` block),
/// cut back to the last line break where one exists; HTML chunks that
/// leave a `<pre>` block open close it and the next chunk reopens it.
pub open spec fn spec_plan_chunks(remaining: Seq<char>, is_html: bool, in_pre: bool) -> Seq<
    Seq<char>,
>
    decreases remaining.len(),
    via spec_plan_chunks_decreases
{
    if remaining.len() == 0 {
        Seq::empty()
    } else {
        let eff = (if is_html && in_pre {
            (TELEGRAM_MSG_LIMIT - 11) as nat
        } else {
            TELEGRAM_MSG_LIMIT as nat
        });
        let opening = if is_html && in_pre {
            "<pre>"@
        } else {
            Seq::<char>::empty()
        };
        if byte_len(remaining) <= eff {
            seq![opening + remaining]
        } else {
            let p = crate::session::spec_byte_prefix(remaining, eff);
            let split_at = match spec_rfind_char(p, '\n') {
                Some(i) => i,
                None => p.len() as int,
            };
            let raw = remaining.take(split_at);
            let new_in_pre = if is_html {
                spec_pre_state_after(raw, in_pre)
            } else {
                in_pre
            };
            let closing = if is_html && new_in_pre {
                "</pre>"@
            } else {
                Seq::<char>::empty()
            };
            let rest = remaining.skip(split_at);
            let rest2 = if rest.len() > 0 && rest[0] == '\n' {
                rest.drop_first()
            } else {
                rest
            };
            seq![opening + raw + closing] + spec_plan_chunks(rest2, is_html, new_in_pre)
        }
    }
}

#[via_fn]
proof fn spec_plan_chunks_decreases(remaining: Seq<char>, is_html: bool, in_pre: bool) {
    if remaining.len() > 0 {
        let eff = (if is_html && in_pre {
            (TELEGRAM_MSG_LIMIT - 11) as nat
        } else {
            TELEGRAM_MSG_LIMIT as nat
        });
        if byte_len(remaining) > eff {
            lemma_first_char_fits(remaining, eff);
            lemma_byte_prefix_is_prefix(remaining, eff);
            let p = crate::session::spec_byte_prefix(remaining, eff);
            lemma_spec_rfind_char(p, '\n');
            match spec_rfind_char(p, '\n') {
                Some(i) => {
                    if i == 0 {
                        assert(remaining.take(0).len() == 0);
                        assert(p[0] == remaining[0]);
                    }
                }
                None => {}
            }
        }
    }
}

/// Split a message that may exceed the transport limit into the chunks
/// that are sent in its place, tracking `<pre>` blocks across splits.
pub fn plan_message_chunks(text: &str, is_html: bool) -> (chunks: Vec<String>)
    ensures
        chunks@.map_values(|c: String| c@) == spec_plan_chunks(text@, is_html, false),
{
    let mut chunks: Vec<String> = Vec::new();
    let mut remaining = str_to_chars(text);
    let mut in_pre = false;
    let ghost all = spec_plan_chunks(text@, is_html, false);
    proof {
        assert(chunks@.map_values(|c: String| c@) + spec_plan_chunks(remaining@, is_html, in_pre)
            =~= all);
    }
    loop
        invariant_except_break
            all == chunks@.map_values(|c: String| c@) + spec_plan_chunks(
                remaining@,
                is_html,
                in_pre,
            ),
        invariant
            all == spec_plan_chunks(text@, is_html, false),
        ensures
            chunks@.map_values(|c: String| c@) == all,
        decreases remaining@.len(),
    {
        if remaining.len() == 0 {
            proof {
                assert(spec_plan_chunks(remaining@, is_html, in_pre) =~= Seq::<Seq<char>>::empty());
                assert(chunks@.map_values(|c: String| c@) + Seq::<Seq<char>>::empty()
                    =~= chunks@.map_values(|c: String| c@));
            }
            break;
        }
        let effective_limit = if is_html && in_pre {
            TELEGRAM_MSG_LIMIT - 11
        } else {
            TELEGRAM_MSG_LIMIT
        };
        let fits = !crate::text::byte_len_exceeds(&remaining, effective_limit);
        if fits {
            let mut chunk: Vec<char> = Vec::new();
            if is_html && in_pre {
                let mut open = str_to_chars("<pre>");
                chunk.append(&mut open);
            }
            let mut body = clone_chars(&remaining);
            chunk.append(&mut body);
            chunks.push(string_of_chars(&chunk));
            proof {
                assert(chunks@.map_values(|c: String| c@) =~~= all);
            }
            break;
        }
        let (k, _) = prefix_within_limit(&remaining, effective_limit);
        proof {
            crate::session::lemma_byte_prefix_at_pub(remaining@, effective_limit as nat, k as int);
            lemma_first_char_fits(remaining@, effective_limit as nat);
            lemma_byte_prefix_is_prefix(remaining@, effective_limit as nat);
        }
        let prefix = subrange_chars(&remaining, 0, k);
        proof {
            assert(prefix@ =~= remaining@.take(k as int));
            lemma_spec_rfind_char(prefix@, '\n');
        }
        let split_at = match rfind_char(&prefix, '\n') {
            Some(i) => i,
            None => k,
        };
        let raw = subrange_chars(&remaining, 0, split_at);
        proof {
            assert(raw@ =~= remaining@.take(split_at as int));
        }
        let new_in_pre = if is_html {
            let open_tag = str_to_chars("<pre>");
            let close_tag = str_to_chars("</pre>");
            proof {
                reveal_strlit("<pre>");
                reveal_strlit("</pre>");
            }
            let last_open = rfind_sub(&raw, &open_tag);
            let last_close = rfind_sub(&raw, &close_tag);
            match (last_open, last_close) {
                (Some(o), Some(c)) => o > c,
                (Some(_), None) => true,
                (None, Some(_)) => false,
                (None, None) => in_pre,
            }
        } else {
            in_pre
        };
        let mut chunk: Vec<char> = Vec::new();
        if is_html && in_pre {
            let mut open = str_to_chars("<pre>");
            chunk.append(&mut open);
        }
        let mut body = clone_chars(&raw);
        chunk.append(&mut body);
        if is_html && new_in_pre {
            let mut close = str_to_chars("</pre>");
            chunk.append(&mut close);
        }
        chunks.push(string_of_chars(&chunk));

        let mut rest = subrange_chars(&remaining, split_at, remaining.len());
        proof {
            assert(rest@ =~= remaining@.skip(split_at as int));
        }
        if rest.len() > 0 && rest[0] == '\n' {
            rest = subrange_chars(&rest, 1, rest.len());
            proof {
                assert(rest@ =~= remaining@.skip(split_at as int).drop_first());
            }
        }
        remaining = rest;
        in_pre = new_in_pre;
        proof {
            assert(chunks@.map_values(|c: String| c@) + spec_plan_chunks(
                remaining@,
                is_html,
                in_pre,
            ) =~~= all);
        }
    }
    chunks
}

} // verus!
