//! Character-level text utilities shared by the whole library.
//!
//! Verified code works on `Vec<char>` with `Seq<char>` views; these helpers
//! convert between `&str`/`String` and `Vec<char>`, search for substrings,
//! and reason about the UTF-8 byte length of character sequences.

use vstd::prelude::*;
use vstd::std_specs::iter::IteratorSpec;
use vstd::utf8::{char_is_scalar, encode_scalar, encode_utf8};

verus! {

broadcast use vstd::string::group_string_axioms;

/// The Unicode `White_Space` code points, as `char::is_whitespace` knows them.
pub open spec fn is_space_char(c: char) -> bool {
    ||| c == ' '
    ||| c == '\t'
    ||| c == '\n'
    ||| c == '\r'
    ||| c == '\u{b}'
    ||| c == '\u{c}'
    ||| c == '\u{85}'
    ||| c == '\u{a0}'
    ||| c == '\u{1680}'
    ||| ('\u{2000}' <= c && c <= '\u{200a}')
    ||| c == '\u{2028}'
    ||| c == '\u{2029}'
    ||| c == '\u{202f}'
    ||| c == '\u{205f}'
    ||| c == '\u{3000}'
}

pub fn is_space(c: char) -> (b: bool)
    ensures
        b == is_space_char(c),
{
    c == ' ' || c == '\t' || c == '\n' || c == '\r' || c == '\u{b}' || c == '\u{c}'
        || c == '\u{85}' || c == '\u{a0}' || c == '\u{1680}'
        || ('\u{2000}' <= c && c <= '\u{200a}') || c == '\u{2028}' || c == '\u{2029}'
        || c == '\u{202f}' || c == '\u{205f}' || c == '\u{3000}'
}

/// Collect the characters of a string slice into a vector.
pub fn str_to_chars(s: &str) -> (v: Vec<char>)
    ensures
        v@ == s@,
{
    let mut it = s.chars();
    let mut v: Vec<char> = Vec::new();
    loop
        invariant
            it.obeys_prophetic_iter_laws(),
            v@ + it.remaining() == s@,
            v@.len() <= s@.len(),
        ensures
            v@ == s@,
        decreases s@.len() - v@.len(),
    {
        match it.next() {
            Some(c) => {
                v.push(c);
                assert(v@ + it.remaining() =~= s@);
            }
            None => {
                assert(v@ =~= s@);
                break;
            }
        }
    }
    v
}

/// Relies on `String::push`: appends one character to the string.
#[verifier::external_body]
fn push_char(s: &mut String, c: char)
    ensures
        final(s)@ == old(s)@.push(c),
{
    s.push(c);
}

/// Build a `String` from a vector of characters.
pub fn string_of_chars(v: &Vec<char>) -> (s: String)
    ensures
        s@ == v@,
{
    let mut s = String::new();
    let mut i: usize = 0;
    while i < v.len()
        invariant
            i <= v.len(),
            s@ == v@.take(i as int),
        decreases v.len() - i,
    {
        push_char(&mut s, v[i]);
        i = i + 1;
        assert(s@ =~= v@.take(i as int));
    }
    assert(s@ =~= v@);
    s
}

/// Compare two character vectors for equality of their contents.
pub fn chars_eq(a: &Vec<char>, b: &Vec<char>) -> (r: bool)
    ensures
        r == (a@ == b@),
{
    if a.len() != b.len() {
        assert(a@ != b@) by {
            assert(a@.len() != b@.len());
        }
        return false;
    }
    let mut i: usize = 0;
    while i < a.len()
        invariant
            i <= a.len(),
            a@.len() == b@.len(),
            forall|j: int| 0 <= j < i ==> a@[j] == b@[j],
        decreases a.len() - i,
    {
        if a[i] != b[i] {
            return false;
        }
        i = i + 1;
    }
    assert(a@ =~= b@);
    true
}

/// Compare two string slices for equality of their character sequences.
pub fn str_eq(a: &str, b: &str) -> (r: bool)
    ensures
        r == (a@ == b@),
{
    let av = str_to_chars(a);
    let bv = str_to_chars(b);
    chars_eq(&av, &bv)
}

/// `p` occurs in `s` starting at position `i`.
pub open spec fn has_sub_at(s: Seq<char>, p: Seq<char>, i: int) -> bool {
    0 <= i && i + p.len() <= s.len() && s.subrange(i, i + p.len() as int) == p
}

/// `p` occurs somewhere in `s`.
pub open spec fn contains_seq(s: Seq<char>, p: Seq<char>) -> bool {
    exists|i: int| has_sub_at(s, p, i)
}

/// Find the first occurrence of `p` in `s` at or after `from`.
pub fn find_from(s: &Vec<char>, from: usize, p: &Vec<char>) -> (r: Option<usize>)
    requires
        p@.len() >= 1,
    ensures
        match r {
            Some(i) => from <= i && has_sub_at(s@, p@, i as int) && forall|j: int|
                from <= j < i ==> !has_sub_at(s@, p@, j),
            None => forall|j: int| from <= j ==> !has_sub_at(s@, p@, j),
        },
{
    if p.len() > s.len() || from > s.len() - p.len() {
        assert(forall|j: int| from <= j ==> !has_sub_at(s@, p@, j));
        return None;
    }
    let last_start = s.len() - p.len();
    let end = last_start + 1;
    let mut i: usize = from;
    while i < end
        invariant
            p@.len() >= 1,
            p@.len() <= s@.len(),
            s@.len() == s.len() && p@.len() == p.len(),
            last_start == s@.len() - p@.len(),
            end == last_start + 1,
            from <= i <= end,
            forall|j: int| from <= j < i ==> !has_sub_at(s@, p@, j),
        decreases end - i,
    {
        let mut k: usize = 0;
        while k < p.len() && s[i + k] == p[k]
            invariant
                k <= p@.len(),
                p@.len() >= 1,
                i + p@.len() <= s@.len(),
                s@.len() == s.len() && p@.len() == p.len(),
                forall|t: int| 0 <= t < k ==> s@[i + t] == p@[t],
            decreases p.len() - k,
        {
            k = k + 1;
        }
        if k == p.len() {
            assert(s@.subrange(i as int, i + p@.len() as int) =~= p@);
            return Some(i);
        } else {
            assert(!has_sub_at(s@, p@, i as int)) by {
                assert(s@[i + k] != p@[k as int]);
                if s@.subrange(i as int, i + p@.len() as int) == p@ {
                    assert(s@.subrange(i as int, i + p@.len() as int)[k as int] == p@[k as int]);
                    assert(false);
                }
            }
        }
        i = i + 1;
    }
    assert(forall|j: int| from <= j ==> !has_sub_at(s@, p@, j)) by {
        assert(forall|j: int| j > last_start ==> !has_sub_at(s@, p@, j));
    }
    None
}

/// Characters of `s` with leading whitespace removed.
pub open spec fn spec_trim_start(s: Seq<char>) -> Seq<char>
    decreases s.len(),
{
    if s.len() == 0 {
        s
    } else if is_space_char(s[0]) {
        spec_trim_start(s.drop_first())
    } else {
        s
    }
}

/// Characters of `s` with trailing whitespace removed.
pub open spec fn spec_trim_end(s: Seq<char>) -> Seq<char>
    decreases s.len(),
{
    if s.len() == 0 {
        s
    } else if is_space_char(s[s.len() - 1]) {
        spec_trim_end(s.drop_last())
    } else {
        s
    }
}

/// Characters of `s` with leading and trailing whitespace removed.
pub open spec fn spec_trim(s: Seq<char>) -> Seq<char> {
    spec_trim_end(spec_trim_start(s))
}

proof fn lemma_trim_start_at(s: Seq<char>, k: int)
    requires
        0 <= k <= s.len(),
        forall|j: int| 0 <= j < k ==> is_space_char(s[j]),
        k == s.len() || !is_space_char(s[k]),
    ensures
        spec_trim_start(s) == s.subrange(k, s.len() as int),
    decreases k,
{
    if k == 0 {
        if s.len() == 0 {
            assert(spec_trim_start(s) =~= s.subrange(0, s.len() as int));
        } else {
            assert(s.subrange(0, s.len() as int) =~= s);
        }
    } else {
        assert(is_space_char(s[0]));
        let t = s.drop_first();
        assert(forall|j: int| 0 <= j < k - 1 ==> is_space_char(t[j]));
        lemma_trim_start_at(t, k - 1);
        assert(t.subrange(k - 1, t.len() as int) =~= s.subrange(k, s.len() as int));
    }
}

pub proof fn lemma_trim_end_at_pub(s: Seq<char>, h: int)
    requires
        0 <= h <= s.len(),
        forall|j: int| h <= j < s.len() ==> is_space_char(s[j]),
        h == 0 || !is_space_char(s[h - 1]),
    ensures
        spec_trim_end(s) == s.subrange(0, h),
    decreases s.len(),
{
    if h == s.len() {
        if s.len() == 0 {
            assert(spec_trim_end(s) =~= s.subrange(0, h));
        } else if is_space_char(s[s.len() - 1]) {
            assert(h == 0 || !is_space_char(s[h - 1]));
            assert(false);
        } else {
            assert(s.subrange(0, h) =~= s);
        }
    } else {
        assert(is_space_char(s[s.len() - 1]));
        let t = s.drop_last();
        assert(forall|j: int| h <= j < t.len() ==> t[j] == s[j]);
        lemma_trim_end_at_pub(t, h);
        assert(t.subrange(0, h) =~= s.subrange(0, h));
    }
}

/// Copy the characters of `v` in positions `[lo, hi)` into a new vector.
pub fn subrange_chars(v: &Vec<char>, lo: usize, hi: usize) -> (r: Vec<char>)
    requires
        lo <= hi <= v@.len(),
    ensures
        r@ == v@.subrange(lo as int, hi as int),
{
    let mut r: Vec<char> = Vec::new();
    let mut i: usize = lo;
    while i < hi
        invariant
            lo <= i <= hi <= v@.len(),
            r@ == v@.subrange(lo as int, i as int),
        decreases hi - i,
    {
        r.push(v[i]);
        i = i + 1;
        assert(r@ =~= v@.subrange(lo as int, i as int));
    }
    r
}

/// Remove leading and trailing whitespace, as `str::trim` does.
pub fn trim_chars(v: &Vec<char>) -> (r: Vec<char>)
    ensures
        r@ == spec_trim(v@),
{
    let mut lo: usize = 0;
    while lo < v.len() && is_space(v[lo])
        invariant
            lo <= v@.len(),
            forall|j: int| 0 <= j < lo ==> is_space_char(v@[j]),
        decreases v.len() - lo,
    {
        lo = lo + 1;
    }
    proof {
        lemma_trim_start_at(v@, lo as int);
    }
    let ghost st = spec_trim_start(v@);
    let mut hi: usize = v.len();
    while hi > lo && is_space(v[hi - 1])
        invariant
            lo <= hi <= v@.len(),
            forall|j: int| hi <= j < v@.len() ==> is_space_char(v@[j]),
        decreases hi,
    {
        hi = hi - 1;
    }
    proof {
        assert(forall|j: int| hi - lo <= j < st.len() ==> is_space_char(st[j]));
        lemma_trim_end_at_pub(st, hi - lo);
        assert(st.subrange(0, hi - lo) =~= v@.subrange(lo as int, hi as int));
    }
    subrange_chars(v, lo, hi)
}

/// ASCII lowercasing of one character.
pub open spec fn lower_char(c: char) -> char {
    if 'A' <= c && c <= 'Z' {
        ((c as u8) + 32) as char
    } else {
        c
    }
}

/// ASCII lowercasing of a character sequence.
pub open spec fn spec_lower(s: Seq<char>) -> Seq<char> {
    s.map_values(|c: char| lower_char(c))
}

/// Lowercase one character if it is an ASCII capital letter.
pub fn to_lower(c: char) -> (r: char)
    ensures
        r == lower_char(c),
{
    if 'A' <= c && c <= 'Z' {
        (c as u8 + 32) as char
    } else {
        c
    }
}

/// ASCII-lowercase every character of `v`.
pub fn lower_chars(v: &Vec<char>) -> (r: Vec<char>)
    ensures
        r@ == spec_lower(v@),
{
    let mut r: Vec<char> = Vec::new();
    let mut i: usize = 0;
    while i < v.len()
        invariant
            i <= v@.len(),
            r@ == v@.take(i as int).map_values(|c: char| lower_char(c)),
        decreases v.len() - i,
    {
        r.push(to_lower(v[i]));
        i = i + 1;
        assert(r@ =~= v@.take(i as int).map_values(|c: char| lower_char(c)));
    }
    assert(v@.take(v@.len() as int) =~= v@);
    r
}

/// The first whitespace-delimited word of `s`, empty if `s` starts with
/// whitespace or is empty.
pub open spec fn spec_first_word(s: Seq<char>) -> Seq<char>
    decreases s.len(),
{
    if s.len() == 0 || is_space_char(s[0]) {
        Seq::empty()
    } else {
        seq![s[0]] + spec_first_word(s.drop_first())
    }
}

proof fn lemma_first_word_at(s: Seq<char>, k: int)
    requires
        0 <= k <= s.len(),
        forall|j: int| 0 <= j < k ==> !is_space_char(s[j]),
        k == s.len() || is_space_char(s[k]),
    ensures
        spec_first_word(s) == s.take(k),
    decreases k,
{
    if k == 0 {
        assert(spec_first_word(s) =~= s.take(0));
    } else {
        let t = s.drop_first();
        assert(forall|j: int| 0 <= j < k - 1 ==> !is_space_char(t[j]));
        lemma_first_word_at(t, k - 1);
        assert(seq![s[0]] + t.take(k - 1) =~= s.take(k));
    }
}

/// The first whitespace-delimited word of `v`, as `split_whitespace().next()`
/// gives it on a string with no leading whitespace.
pub fn first_word(v: &Vec<char>) -> (r: Vec<char>)
    ensures
        r@ == spec_first_word(v@),
{
    let mut k: usize = 0;
    while k < v.len() && !is_space(v[k])
        invariant
            k <= v@.len(),
            forall|j: int| 0 <= j < k ==> !is_space_char(v@[j]),
        decreases v.len() - k,
    {
        k = k + 1;
    }
    proof {
        lemma_first_word_at(v@, k as int);
        assert(v@.take(k as int) =~= v@.subrange(0, k as int));
    }
    subrange_chars(v, 0, k)
}

/// Whether `p` is a prefix of `t`.
pub fn starts_with_chars(t: &Vec<char>, p: &Vec<char>) -> (r: bool)
    ensures
        r == p@.is_prefix_of(t@),
{
    if p.len() > t.len() {
        assert(!p@.is_prefix_of(t@));
        return false;
    }
    let mut i: usize = 0;
    while i < p.len()
        invariant
            i <= p@.len() <= t@.len(),
            forall|j: int| 0 <= j < i ==> t@[j] == p@[j],
        decreases p.len() - i,
    {
        if t[i] != p[i] {
            assert(!p@.is_prefix_of(t@)) by {
                if p@.is_prefix_of(t@) {
                    assert(t@.subrange(0, p@.len() as int)[i as int] == p@[i as int]);
                }
            }
            return false;
        }
        i = i + 1;
    }
    assert(t@.subrange(0, p@.len() as int) =~= p@);
    true
}

/// Whether the character sequence `s` contains `p`; `p` must be non-empty.
pub fn contains_chars(s: &Vec<char>, p: &Vec<char>) -> (r: bool)
    requires
        p@.len() >= 1,
    ensures
        r == contains_seq(s@, p@),
{
    match find_from(s, 0, p) {
        Some(i) => {
            assert(contains_seq(s@, p@));
            true
        }
        None => {
            assert(!contains_seq(s@, p@));
            false
        }
    }
}

} // verus!

verus! {

/// The UTF-8 byte length of a character sequence.
pub open spec fn byte_len(s: Seq<char>) -> nat {
    encode_utf8(s).len()
}

/// UTF-8 byte length distributes over concatenation.
pub proof fn lemma_byte_len_concat(a: Seq<char>, b: Seq<char>)
    ensures
        byte_len(a + b) == byte_len(a) + byte_len(b),
    decreases a.len(),
{
    if a.len() == 0 {
        assert(a + b =~= b);
        assert(byte_len(a) == 0);
    } else {
        let ab = a + b;
        assert(ab.len() > 0);
        assert(ab[0] == a[0]);
        assert(ab.drop_first() =~= a.drop_first() + b);
        lemma_byte_len_concat(a.drop_first(), b);
    }
}

/// Prefixes never have a larger byte length than the whole.
pub proof fn lemma_byte_len_take_le(s: Seq<char>, k: int)
    requires
        0 <= k <= s.len(),
    ensures
        byte_len(s.take(k)) <= byte_len(s),
{
    assert(s =~= s.take(k) + s.skip(k));
    lemma_byte_len_concat(s.take(k), s.skip(k));
}

/// The number of bytes one character occupies in UTF-8.
pub fn char_utf8_len(c: char) -> (n: usize)
    ensures
        n == encode_scalar(c as u32).len(),
        1 <= n <= 4,
{
    proof {
        char_is_scalar(c);
    }
    let u = c as u32;
    if u <= 0x7F {
        1
    } else if u <= 0x7FF {
        2
    } else if u <= 0xFFFF {
        3
    } else {
        4
    }
}

/// The length of the longest prefix of `v` that fits in `limit` UTF-8
/// bytes, together with that prefix's byte length.
///
/// This is the character-level counterpart of flooring a byte index to the
/// nearest character boundary at or below it.
pub fn prefix_within_limit(v: &Vec<char>, limit: usize) -> (r: (usize, usize))
    requires
        limit <= usize::MAX - 4,
    ensures
        r.0 <= v@.len(),
        r.1 == byte_len(v@.take(r.0 as int)),
        r.1 <= limit,
        r.0 == v@.len() || byte_len(v@.take(r.0 + 1 as int)) > limit,
{
    let mut k: usize = 0;
    let mut acc: usize = 0;
    while k < v.len()
        invariant
            limit <= usize::MAX - 4,
            k <= v@.len(),
            acc == byte_len(v@.take(k as int)),
            acc <= limit,
        ensures
            k <= v@.len(),
            acc == byte_len(v@.take(k as int)),
            acc <= limit,
            k == v@.len() || byte_len(v@.take(k + 1 as int)) > limit,
        decreases v.len() - k,
    {
        let w = char_utf8_len(v[k]);
        proof {
            let cc = v@[k as int];
            let s1 = seq![cc];
            assert(v@.take(k + 1 as int) =~= v@.take(k as int) + s1);
            lemma_byte_len_concat(v@.take(k as int), s1);
            assert(s1.drop_first() =~= Seq::<char>::empty());
            assert(encode_utf8(Seq::<char>::empty()) =~= Seq::<u8>::empty());
            assert(encode_utf8(s1) =~= encode_scalar(s1[0] as u32) + encode_utf8(s1.drop_first()));
            assert(s1[0] == cc);
            assert(byte_len(s1) == encode_scalar(cc as u32).len());
        }
        if acc + w > limit {
            break;
        }
        acc = acc + w;
        k = k + 1;
    }
    (k, acc)
}

/// Whether the UTF-8 byte length of `v` exceeds `limit`.
pub fn byte_len_exceeds(v: &Vec<char>, limit: usize) -> (r: bool)
    requires
        limit <= usize::MAX - 4,
    ensures
        r == (byte_len(v@) > limit),
{
    let (k, _) = prefix_within_limit(v, limit);
    if k == v.len() {
        proof {
            assert(v@.take(v@.len() as int) =~= v@);
        }
        false
    } else {
        proof {
            lemma_byte_len_take_le(v@, k + 1);
        }
        true
    }
}

/// The position of the first occurrence of `p` in `s`, if any.
pub open spec fn spec_find(s: Seq<char>, p: Seq<char>) -> Option<int>
    decreases s.len(),
{
    if p.is_prefix_of(s) {
        Some(0int)
    } else if s.len() == 0 {
        None
    } else {
        match spec_find(s.drop_first(), p) {
            Some(i) => Some(i + 1),
            None => None,
        }
    }
}

/// `spec_find` returns exactly the first occurrence.
pub proof fn lemma_spec_find(s: Seq<char>, p: Seq<char>)
    ensures
        match spec_find(s, p) {
            Some(i) => 0 <= i && i + p.len() <= s.len() && has_sub_at(s, p, i) && forall|j: int|
                0 <= j < i ==> !has_sub_at(s, p, j),
            None => forall|j: int| !has_sub_at(s, p, j),
        },
    decreases s.len(),
{
    if p.is_prefix_of(s) {
        assert(s.subrange(0, p.len() as int) =~= p);
    } else if s.len() == 0 {
        assert(forall|j: int| !has_sub_at(s, p, j));
    } else {
        let t = s.drop_first();
        lemma_spec_find(t, p);
        assert(forall|j: int| 0 <= j ==> (has_sub_at(s, p, j + 1) == has_sub_at(t, p, j))) by {
            assert forall|j: int| 0 <= j implies (has_sub_at(s, p, j + 1) == has_sub_at(t, p, j)) by {
                if 0 <= j && j + p.len() <= t.len() {
                    assert(s.subrange(j + 1, j + 1 + p.len() as int) =~= t.subrange(
                        j,
                        j + p.len() as int,
                    ));
                }
            }
        }
        assert(!has_sub_at(s, p, 0)) by {
            if has_sub_at(s, p, 0) {
                assert(s.subrange(0, p.len() as int) == p);
                assert(p.is_prefix_of(s));
            }
        }
        match spec_find(t, p) {
            Some(i) => {
                assert(spec_find(s, p) == Some(i + 1));
                assert(has_sub_at(s, p, i + 1));
                assert forall|j: int| 0 <= j < i + 1 implies !has_sub_at(s, p, j) by {
                    if j >= 1 {
                        assert(!has_sub_at(t, p, j - 1));
                    }
                }
            }
            None => {
                assert forall|j: int| !has_sub_at(s, p, j) by {
                    if j >= 1 {
                        assert(!has_sub_at(t, p, j - 1));
                    }
                }
            }
        }
    }
}

/// Lowercasing commutes with dropping a prefix.
pub proof fn lemma_lower_skip(s: Seq<char>, n: int)
    requires
        0 <= n <= s.len(),
    ensures
        spec_lower(s.skip(n)) == spec_lower(s).skip(n),
{
    assert(spec_lower(s.skip(n)) =~= spec_lower(s).skip(n));
}

} // verus!

verus! {

/// Characters of `s` with trailing whitespace removed, as `str::trim_end`.
pub fn trim_end_chars(v: &Vec<char>) -> (r: Vec<char>)
    ensures
        r@ == spec_trim_end(v@),
{
    let mut hi: usize = v.len();
    while hi > 0 && is_space(v[hi - 1])
        invariant
            hi <= v@.len(),
            forall|j: int| hi <= j < v@.len() ==> is_space_char(v@[j]),
        decreases hi,
    {
        hi = hi - 1;
    }
    proof {
        lemma_trim_end_at_pub(v@, hi as int);
        assert(v@.subrange(0, hi as int) =~= v@.take(hi as int));
    }
    subrange_chars(v, 0, hi)
}

/// The decimal digit character for `d`.
pub open spec fn digit_char(d: int) -> char {
    ((48 + d) as u32) as char
}

/// The decimal representation of a non-negative number.
pub open spec fn spec_u64_dec(n: nat) -> Seq<char>
    decreases n,
{
    if n < 10 {
        seq![digit_char(n as int)]
    } else {
        spec_u64_dec(n / 10).push(digit_char((n % 10) as int))
    }
}

/// The decimal representation of a signed number, as `Display` prints it.
pub open spec fn spec_i64_dec(n: int) -> Seq<char> {
    if n >= 0 {
        spec_u64_dec(n as nat)
    } else {
        seq!['-'] + spec_u64_dec((-n) as nat)
    }
}

fn digit_to_char(d: u64) -> (c: char)
    requires
        d < 10,
    ensures
        c == digit_char(d as int),
{
    let b: u8 = 48 + (d as u8);
    b as char
}

/// Write `n` in decimal.
pub fn u64_dec_chars(n: u64) -> (r: Vec<char>)
    ensures
        r@ == spec_u64_dec(n as nat),
    decreases n,
{
    if n < 10 {
        let mut r: Vec<char> = Vec::new();
        r.push(digit_to_char(n));
        assert(r@ =~= seq![digit_char(n as int)]);
        r
    } else {
        assert(n / 10 < n) by {
            assert(n >= 10);
        }
        let mut r = u64_dec_chars(n / 10);
        r.push(digit_to_char(n % 10));
        r
    }
}

/// Write `n` in decimal with a leading minus sign where negative.
pub fn i64_dec_chars(n: i64) -> (r: Vec<char>)
    ensures
        r@ == spec_i64_dec(n as int),
{
    if n >= 0 {
        u64_dec_chars(n as u64)
    } else {
        let mag: u64 = if n == i64::MIN {
            9223372036854775808u64
        } else {
            (-n) as u64
        };
        assert(mag == (-(n as int)) as nat);
        let mut r: Vec<char> = Vec::new();
        r.push('-');
        let mut digits = u64_dec_chars(mag);
        r.append(&mut digits);
        assert(r@ =~= seq!['-'] + spec_u64_dec((-(n as int)) as nat));
        r
    }
}

} // verus!

verus! {

/// The pieces joined with `sep` between each pair.
pub open spec fn spec_join_sep(ts: Seq<Seq<char>>, sep: Seq<char>) -> Seq<char>
    decreases ts.len(),
{
    if ts.len() == 0 {
        Seq::empty()
    } else if ts.len() == 1 {
        ts[0]
    } else {
        ts[0] + sep + spec_join_sep(ts.drop_first(), sep)
    }
}

pub proof fn lemma_join_sep_snoc(ts: Seq<Seq<char>>, sep: Seq<char>, t: Seq<char>)
    ensures
        spec_join_sep(ts.push(t), sep) == if ts.len() == 0 {
            t
        } else {
            spec_join_sep(ts, sep) + sep + t
        },
    decreases ts.len(),
{
    if ts.len() == 0 {
        assert(ts.push(t)[0] == t);
        assert(spec_join_sep(ts.push(t), sep) == t);
    } else if ts.len() == 1 {
        assert(ts.push(t)[0] == ts[0]);
        assert(ts.push(t).drop_first() =~= seq![t]);
        assert(spec_join_sep(seq![t], sep) == t);
    } else {
        assert(ts.push(t)[0] == ts[0]);
        assert(ts.push(t).drop_first() =~= ts.drop_first().push(t));
        lemma_join_sep_snoc(ts.drop_first(), sep, t);
        assert(ts[0] + sep + (spec_join_sep(ts.drop_first(), sep) + sep + t) =~= (ts[0] + sep
            + spec_join_sep(ts.drop_first(), sep)) + sep + t);
    }
}

/// The views of a vector of owned strings.
pub open spec fn string_views(v: Seq<String>) -> Seq<Seq<char>> {
    v.map_values(|s: String| s@)
}

/// Join owned strings with a separator.
pub fn join_strings(items: &Vec<String>, sep: &str) -> (r: String)
    ensures
        r@ == spec_join_sep(string_views(items@), sep@),
{
    let ghost ts = string_views(items@);
    let mut out: Vec<char> = Vec::new();
    let mut i: usize = 0;
    while i < items.len()
        invariant
            i <= items@.len(),
            ts == string_views(items@),
            ts.len() == items@.len(),
            forall|k: int| 0 <= k < ts.len() ==> ts[k] == items@[k]@,
            out@ == spec_join_sep(ts.take(i as int), sep@),
        decreases items@.len() - i,
    {
        if i > 0 {
            let mut sc = str_to_chars(sep);
            out.append(&mut sc);
        }
        let mut ic = str_to_chars(items[i].as_str());
        out.append(&mut ic);
        proof {
            lemma_join_sep_snoc(ts.take(i as int), sep@, ts[i as int]);
            assert(ts.take(i + 1 as int) =~= ts.take(i as int).push(ts[i as int]));
        }
        i = i + 1;
    }
    proof {
        assert(ts.take(ts.len() as int) =~= ts);
    }
    string_of_chars(&out)
}

} // verus!
