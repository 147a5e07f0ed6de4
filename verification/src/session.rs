//! Session history records, prompt sanitization, and the bounded history cap.

use vstd::prelude::*;

use crate::text::{
    byte_len, byte_len_exceeds, find_from, has_sub_at, lemma_byte_len_concat,
    lemma_lower_skip, lemma_spec_find, lower_chars, prefix_within_limit, spec_find, spec_lower,
    str_to_chars, string_of_chars, subrange_chars,
};

verus! {

/// Kinds of entries a conversation history can hold.
#[derive(Debug, Clone, Copy, PartialEq, Eq, Structural)]
pub enum HistoryType {
    User,
    Assistant,
    Error,
    System,
    ToolUse,
    ToolResult,
}

/// One entry of a conversation history.
#[derive(Debug, Clone)]
pub struct HistoryItem {
    pub item_type: HistoryType,
    pub content: String,
}

/// A persisted snapshot of one conversation.
#[derive(Debug, Clone)]
pub struct SessionData {
    pub session_id: String,
    pub history: Vec<HistoryItem>,
    pub current_path: String,
    pub created_at: String,
}

/// Upper bound on the number of entries a history may hold.
pub const MAX_HISTORY_ITEMS: usize = 100;

/// Evict the oldest entries so that at most [`MAX_HISTORY_ITEMS`] remain,
/// preserving the relative order of the survivors.
pub fn enforce_history_cap(history: &mut Vec<HistoryItem>)
    ensures
        final(history)@ == if old(history)@.len() > MAX_HISTORY_ITEMS {
            old(history)@.skip(old(history)@.len() - MAX_HISTORY_ITEMS)
        } else {
            old(history)@
        },
        final(history)@.len() <= MAX_HISTORY_ITEMS,
{
    if history.len() > MAX_HISTORY_ITEMS {
        let drain_count = history.len() - MAX_HISTORY_ITEMS;
        let tail = history.split_off(drain_count);
        *history = tail;
    }
}

/// The replacement marker written over a filtered pattern.
pub open spec fn filtered_marker() -> Seq<char> {
    "[filtered]"@
}

/// One sanitization pass: every occurrence of `p` in the ASCII-lowercased
/// text, scanned left to right without overlap, is replaced by the marker
/// at the matching position of the original text.
pub open spec fn spec_filter_pass(s: Seq<char>, p: Seq<char>) -> Seq<char>
    decreases s.len(),
        when p.len() >= 1
        via spec_filter_pass_decreases
{
    match spec_find(spec_lower(s), p) {
        None => s,
        Some(i) => s.take(i) + filtered_marker() + spec_filter_pass(s.skip(i + p.len()), p),
    }
}

#[via_fn]
proof fn spec_filter_pass_decreases(s: Seq<char>, p: Seq<char>) {
    lemma_spec_find(spec_lower(s), p);
}

/// Whether one pass of `p` over `s` replaces anything.
pub open spec fn spec_filter_hit(s: Seq<char>, p: Seq<char>) -> bool {
    spec_find(spec_lower(s), p) is Some
}

/// Apply the sanitization passes for every pattern in `ps`, in order;
/// the flag records whether any pass replaced anything.
pub open spec fn spec_apply_patterns(s: Seq<char>, ps: Seq<Seq<char>>) -> (Seq<char>, bool)
    decreases ps.len(),
{
    if ps.len() == 0 {
        (s, false)
    } else {
        let t = spec_filter_pass(s, ps[0]);
        let h = spec_filter_hit(s, ps[0]);
        let (u, h2) = spec_apply_patterns(t, ps.drop_first());
        (u, h || h2)
    }
}

/// The phrases that are filtered out of user prompts before they reach the
/// agent, compared case-insensitively.
pub open spec fn spec_dangerous_patterns() -> Seq<Seq<char>> {
    seq![
        "ignore previous instructions"@,
        "ignore all previous"@,
        "disregard previous"@,
        "forget previous"@,
        "system prompt"@,
        "you are now"@,
        "act as if"@,
        "pretend you are"@,
        "new instructions:"@,
        "[system]"@,
        "[admin]"@,
        "---begin"@,
        "---end"@,
    ]
}

/// Byte budget for a sanitized prompt.
pub const MAX_INPUT_LENGTH: usize = 16000;

/// The suffix appended when a prompt is cut at the byte budget.
pub open spec fn truncation_marker() -> Seq<char> {
    "... [truncated]"@
}

/// The longest prefix of `s` that fits in `limit` UTF-8 bytes.
pub open spec fn spec_byte_prefix(s: Seq<char>, limit: nat) -> Seq<char>
    decreases s.len(),
{
    if byte_len(s) <= limit {
        s
    } else if s.len() == 0 {
        s
    } else {
        spec_byte_prefix(s.drop_last(), limit)
    }
}

/// The sanitized form of a prompt: all patterns filtered, then cut at the
/// byte budget (on a character boundary) with the truncation marker added.
pub open spec fn spec_sanitize(s: Seq<char>) -> Seq<char> {
    let f = spec_apply_patterns(s, spec_dangerous_patterns()).0;
    if byte_len(f) > MAX_INPUT_LENGTH {
        spec_byte_prefix(f, MAX_INPUT_LENGTH as nat) + truncation_marker()
    } else {
        f
    }
}

/// Whether sanitizing `s` replaces anything.
pub open spec fn spec_sanitize_hit(s: Seq<char>) -> bool {
    spec_apply_patterns(s, spec_dangerous_patterns()).1
}

pub proof fn lemma_byte_prefix_at_pub(s: Seq<char>, limit: nat, k: int)
    requires
        0 <= k <= s.len(),
        byte_len(s.take(k)) <= limit,
        k == s.len() || byte_len(s.take(k + 1)) > limit,
    ensures
        spec_byte_prefix(s, limit) == s.take(k),
    decreases s.len(),
{
    if byte_len(s) <= limit {
        // the whole of s fits, so the longest fitting prefix is s itself
        if k < s.len() {
            assert(s =~= s.take(k + 1) + s.skip(k + 1));
            lemma_byte_len_concat(s.take(k + 1), s.skip(k + 1));
            assert(false);
        }
        assert(s.take(k) =~= s);
    } else {
        assert(s.len() > 0);
        let t = s.drop_last();
        assert(k < s.len()) by {
            if k == s.len() {
                assert(s.take(k) =~= s);
            }
        }
        assert(t.take(k) =~= s.take(k));
        if k < t.len() {
            assert(t.take(k + 1) =~= s.take(k + 1));
        }
        lemma_byte_prefix_at_pub(t, limit, k);
    }
}

/// One executable filtering pass for pattern `p` over `v`.
///
/// Mirrors `spec_filter_pass`: occurrences are located in the lowercased
/// text and replaced left to right; the flag reports whether any
/// replacement happened.
fn filter_pass(v: &Vec<char>, p: &Vec<char>) -> (r: (Vec<char>, bool))
    requires
        p@.len() >= 1,
    ensures
        r.0@ == spec_filter_pass(v@, p@),
        r.1 == spec_filter_hit(v@, p@),
{
    let lower = lower_chars(v);
    let marker = str_to_chars("[filtered]");
    let mut out: Vec<char> = Vec::new();
    let mut start: usize = 0;
    let mut hit = false;
    proof {
        assert(v@.skip(0) =~= v@);
        assert(out@ + spec_filter_pass(v@, p@) =~= spec_filter_pass(v@, p@));
    }
    loop
        invariant_except_break
            spec_filter_pass(v@, p@) == out@ + spec_filter_pass(v@.skip(start as int), p@),
            spec_filter_hit(v@, p@) == (hit || spec_filter_hit(v@.skip(start as int), p@)),
        invariant
            p@.len() >= 1,
            start <= v@.len(),
            lower@ == spec_lower(v@),
            marker@ == filtered_marker(),
        ensures
            out@ == spec_filter_pass(v@, p@),
            hit == spec_filter_hit(v@, p@),
        decreases v@.len() - start,
    {
        let ghost rem = v@.skip(start as int);
        proof {
            lemma_lower_skip(v@, start as int);
            lemma_spec_find(spec_lower(rem), p@);
        }
        match find_from(&lower, start, p) {
            Some(i) => {
                proof {
                    // the absolute first match at or after `start` is the
                    // relative first match inside the remainder
                    assert forall|j: int| 0 <= j < i - start implies !has_sub_at(
                        spec_lower(rem),
                        p@,
                        j,
                    ) by {
                        assert(spec_lower(rem) =~= spec_lower(v@).skip(start as int));
                        if has_sub_at(spec_lower(rem), p@, j) {
                            assert(spec_lower(v@).subrange(
                                start + j,
                                start + j + p@.len() as int,
                            ) =~= spec_lower(rem).subrange(j, j + p@.len() as int));
                            assert(has_sub_at(spec_lower(v@), p@, start + j));
                        }
                    }
                    assert(has_sub_at(spec_lower(rem), p@, i - start)) by {
                        assert(spec_lower(rem) =~= spec_lower(v@).skip(start as int));
                        assert(spec_lower(rem).subrange(
                            i - start,
                            i - start + p@.len() as int,
                        ) =~= spec_lower(v@).subrange(i as int, i + p@.len() as int));
                    }
                    assert(spec_find(spec_lower(rem), p@) == Some(i - start)) by {
                        match spec_find(spec_lower(rem), p@) {
                            Some(x) => {
                                if x < i - start {
                                    assert(!has_sub_at(spec_lower(rem), p@, x));
                                } else if x > i - start {
                                    assert(!has_sub_at(spec_lower(rem), p@, i - start));
                                }
                            }
                            None => {
                                assert(!has_sub_at(spec_lower(rem), p@, i - start));
                            }
                        }
                    }
                }
                let mut chunk = subrange_chars(v, start, i);
                out.append(&mut chunk);
                let mut m = str_to_chars("[filtered]");
                out.append(&mut m);
                hit = true;
                let ghost old_start = start as int;
                let ll = lower.len();
                proof {
                    assert(i + p@.len() <= lower@.len());
                    assert(ll == lower@.len());
                }
                start = i + p.len();
                proof {
                    assert(rem.skip(i - old_start + p@.len() as int) =~= v@.skip(start as int));
                    assert(rem.take(i - old_start) =~= v@.subrange(old_start, i as int));
                    assert(spec_filter_pass(rem, p@) == rem.take(i - old_start) + filtered_marker()
                        + spec_filter_pass(v@.skip(start as int), p@));
                    assert(out@ + spec_filter_pass(v@.skip(start as int), p@)
                        == spec_filter_pass(v@, p@));
                }
            }
            None => {
                proof {
                    assert forall|j: int| !has_sub_at(spec_lower(rem), p@, j) by {
                        if 0 <= j {
                            assert(spec_lower(rem) =~= spec_lower(v@).skip(start as int));
                            if has_sub_at(spec_lower(rem), p@, j) {
                                assert(spec_lower(v@).subrange(
                                    start + j,
                                    start + j + p@.len() as int,
                                ) =~= spec_lower(rem).subrange(j, j + p@.len() as int));
                                assert(has_sub_at(spec_lower(v@), p@, start + j));
                            }
                        }
                    }
                    assert(spec_find(spec_lower(rem), p@) is None) by {
                        match spec_find(spec_lower(rem), p@) {
                            Some(x) => {
                                assert(has_sub_at(spec_lower(rem), p@, x));
                            }
                            None => {}
                        }
                    }
                    assert(spec_filter_pass(rem, p@) == rem);
                }
                let mut chunk = subrange_chars(v, start, v.len());
                out.append(&mut chunk);
                proof {
                    assert(v@.subrange(start as int, v@.len() as int) =~= rem);
                    assert(out@ == spec_filter_pass(v@, p@));
                }
                break;
            }
        }
    }
    (out, hit)
}

/// Prompt sanitization with case-insensitive pattern matching.
///
/// Matches are found in the ASCII-lowercased text but replaced at the
/// corresponding positions of the original, so surrounding text and casing
/// are preserved; the result is cut at the byte budget on a character
/// boundary. The flag reports whether anything was filtered.
pub fn sanitize_user_input(input: &str) -> (r: (String, bool))
    ensures
        r.0@ == spec_sanitize(input@),
        r.1 == spec_sanitize_hit(input@),
{
    let chars = str_to_chars(input);
    let patterns: Vec<&str> = make_pattern_list();
    let mut cur = chars;
    let mut was_filtered = false;
    let mut pi: usize = 0;
    while pi < patterns.len()
        invariant
            patterns@.len() == spec_dangerous_patterns().len(),
            forall|j: int| 0 <= j < patterns@.len() ==> patterns@[j]@ == spec_dangerous_patterns()[j]
                && patterns@[j]@.len() >= 1,
            pi <= patterns@.len(),
            (cur@, was_filtered) == spec_apply_patterns_partial(
                input@,
                spec_dangerous_patterns(),
                pi as int,
            ),
        decreases patterns@.len() - pi,
    {
        let p = str_to_chars(patterns[pi]);
        let (next, hit) = filter_pass(&cur, &p);
        proof {
            lemma_apply_patterns_step(input@, spec_dangerous_patterns(), pi as int, cur@, was_filtered);
        }
        was_filtered = was_filtered || hit;
        cur = next;
        pi = pi + 1;
    }
    proof {
        lemma_apply_patterns_full(input@, spec_dangerous_patterns());
    }
    let exceeded = byte_len_exceeds(&cur, MAX_INPUT_LENGTH);
    if exceeded {
        let (k, _) = prefix_within_limit(&cur, MAX_INPUT_LENGTH);
        proof {
            lemma_byte_prefix_at_pub(cur@, MAX_INPUT_LENGTH as nat, k as int);
        }
        let mut truncated = subrange_chars(&cur, 0, k);
        let mut m = str_to_chars("... [truncated]");
        truncated.append(&mut m);
        proof {
            assert(cur@.subrange(0, k as int) =~= cur@.take(k as int));
        }
        (string_of_chars(&truncated), was_filtered)
    } else {
        (string_of_chars(&cur), was_filtered)
    }
}

/// The state of pattern application after the first `k` patterns.
pub open spec fn spec_apply_patterns_partial(s: Seq<char>, ps: Seq<Seq<char>>, k: int) -> (
    Seq<char>,
    bool,
)
    decreases k,
{
    if k <= 0 {
        (s, false)
    } else {
        let (t, h) = spec_apply_patterns_partial(s, ps, k - 1);
        (spec_filter_pass(t, ps[k - 1]), h || spec_filter_hit(t, ps[k - 1]))
    }
}

proof fn lemma_apply_patterns_step(s: Seq<char>, ps: Seq<Seq<char>>, k: int, cur: Seq<char>, f: bool)
    requires
        0 <= k < ps.len(),
        (cur, f) == spec_apply_patterns_partial(s, ps, k),
    ensures
        spec_apply_patterns_partial(s, ps, k + 1) == (
            spec_filter_pass(cur, ps[k]),
            f || spec_filter_hit(cur, ps[k]),
        ),
{
}

/// Applying all patterns left to right in accumulator form agrees with the
/// recursive definition.
proof fn lemma_apply_patterns_full(s: Seq<char>, ps: Seq<Seq<char>>)
    ensures
        spec_apply_patterns_partial(s, ps, ps.len() as int) == spec_apply_patterns(s, ps),
    decreases ps.len(),
{
    lemma_apply_patterns_shift(s, ps, ps.len() as int);
    assert(ps.take(ps.len() as int) =~= ps);
}

proof fn lemma_apply_patterns_shift(s: Seq<char>, ps: Seq<Seq<char>>, k: int)
    requires
        0 <= k <= ps.len(),
    ensures
        spec_apply_patterns_partial(s, ps, k) == spec_apply_patterns(s, ps.take(k)),
    decreases k,
{
    if k == 0 {
        assert(spec_apply_patterns(s, ps.take(0)) == (s, false));
    } else {
        lemma_apply_patterns_shift(s, ps, k - 1);
        lemma_apply_patterns_snoc(s, ps.take(k - 1), ps[k - 1]);
        assert(ps.take(k - 1).push(ps[k - 1]) =~= ps.take(k));
    }
}

proof fn lemma_apply_patterns_snoc(s: Seq<char>, ps: Seq<Seq<char>>, p: Seq<char>)
    ensures
        spec_apply_patterns(s, ps.push(p)) == ({
            let (t, h) = spec_apply_patterns(s, ps);
            (spec_filter_pass(t, p), h || spec_filter_hit(t, p))
        }),
    decreases ps.len(),
{
    if ps.len() == 0 {
        assert(ps.push(p)[0] == p);
        assert(ps.push(p).drop_first() =~= Seq::<Seq<char>>::empty());
        assert(spec_apply_patterns(spec_filter_pass(s, p), Seq::<Seq<char>>::empty()) == (
            spec_filter_pass(s, p),
            false,
        ));
        assert(spec_apply_patterns(s, Seq::<Seq<char>>::empty()) == (s, false));
    } else {
        assert(ps.push(p)[0] == ps[0]);
        assert(ps.push(p).drop_first() =~= ps.drop_first().push(p));
        lemma_apply_patterns_snoc(spec_filter_pass(s, ps[0]), ps.drop_first(), p);
    }
}

/// The filtered phrase list in executable form.
fn make_pattern_list() -> (r: Vec<&'static str>)
    ensures
        r@.len() == spec_dangerous_patterns().len(),
        forall|j: int| 0 <= j < r@.len() ==> r@[j]@ == spec_dangerous_patterns()[j]
            && r@[j]@.len() >= 1,
{
    let mut v: Vec<&'static str> = Vec::new();
    v.push("ignore previous instructions");
    v.push("ignore all previous");
    v.push("disregard previous");
    v.push("forget previous");
    v.push("system prompt");
    v.push("you are now");
    v.push("act as if");
    v.push("pretend you are");
    v.push("new instructions:");
    v.push("[system]");
    v.push("[admin]");
    v.push("---begin");
    v.push("---end");
    proof {
        reveal_strlit("ignore previous instructions");
        reveal_strlit("ignore all previous");
        reveal_strlit("disregard previous");
        reveal_strlit("forget previous");
        reveal_strlit("system prompt");
        reveal_strlit("you are now");
        reveal_strlit("act as if");
        reveal_strlit("pretend you are");
        reveal_strlit("new instructions:");
        reveal_strlit("[system]");
        reveal_strlit("[admin]");
        reveal_strlit("---begin");
        reveal_strlit("---end");
        assert forall|j: int| 0 <= j < v@.len() implies v@[j]@ == spec_dangerous_patterns()[j]
            && v@[j]@.len() >= 1 by {
        }
    }
    v
}

} // verus!
