//! Character sequences: whitespace, leading runs, substring search.

use vstd::prelude::*;
use vstd::string::StringSliceAdditionalSpecFns;
use vstd::utf8::*;

verus! {

/// The characters that Unicode classes as `White_Space`.
pub open spec fn is_whitespace(c: char) -> bool {
    ||| '\u{9}' <= c <= '\u{D}'
    ||| c == ' '
    ||| c == '\u{85}'
    ||| c == '\u{A0}'
    ||| c == '\u{1680}'
    ||| '\u{2000}' <= c <= '\u{200A}'
    ||| c == '\u{2028}'
    ||| c == '\u{2029}'
    ||| c == '\u{202F}'
    ||| c == '\u{205F}'
    ||| c == '\u{3000}'
}

/// The length of the longest prefix of `s` made of whitespace.
pub open spec fn leading_whitespace(s: Seq<char>) -> nat
    decreases s.len(),
{
    if s.len() > 0 && is_whitespace(s[0]) {
        1 + leading_whitespace(s.drop_first())
    } else {
        0
    }
}

/// The length of the longest prefix of `s` that holds no whitespace.
pub open spec fn leading_word(s: Seq<char>) -> nat
    decreases s.len(),
{
    if s.len() > 0 && !is_whitespace(s[0]) {
        1 + leading_word(s.drop_first())
    } else {
        0
    }
}

/// `s` without its leading whitespace.
pub open spec fn trim_start(s: Seq<char>) -> Seq<char> {
    s.skip(leading_whitespace(s) as int)
}

/// `needle` stands in `hay` at position `at`.
pub open spec fn occurs_at(hay: Seq<char>, needle: Seq<char>, at: int) -> bool {
    &&& 0 <= at
    &&& at + needle.len() <= hay.len()
    &&& hay.subrange(at, at + needle.len()) == needle
}

/// `needle` is a contiguous part of `hay`. The empty sequence is part of every
/// sequence.
pub open spec fn contains(hay: Seq<char>, needle: Seq<char>) -> bool {
    exists|at: int| occurs_at(hay, needle, at)
}

/// A prefix of `k` whitespace characters that ends at the end of `s` or before
/// a character that is no whitespace is the whole leading whitespace.
pub proof fn lemma_leading_whitespace(s: Seq<char>, k: int)
    requires
        0 <= k <= s.len(),
        forall|j: int| 0 <= j < k ==> is_whitespace(#[trigger] s[j]),
        k < s.len() ==> !is_whitespace(s[k]),
    ensures
        leading_whitespace(s) == k,
    decreases k,
{
    if k > 0 {
        lemma_leading_whitespace(s.drop_first(), k - 1);
    }
}

/// A prefix of `k` characters without whitespace that ends at the end of `s`
/// or before whitespace is the whole leading word.
pub proof fn lemma_leading_word(s: Seq<char>, k: int)
    requires
        0 <= k <= s.len(),
        forall|j: int| 0 <= j < k ==> !is_whitespace(#[trigger] s[j]),
        k < s.len() ==> is_whitespace(s[k]),
    ensures
        leading_word(s) == k,
    decreases k,
{
    if k > 0 {
        lemma_leading_word(s.drop_first(), k - 1);
    }
}

/// The leading whitespace and the leading word end within the sequence.
pub proof fn lemma_leading_bounds(s: Seq<char>)
    ensures
        leading_whitespace(s) <= s.len(),
        leading_word(s) <= s.len(),
    decreases s.len(),
{
    if s.len() > 0 {
        lemma_leading_bounds(s.drop_first());
    }
}

/// Whether `c` is whitespace.
pub fn whitespace(c: char) -> (b: bool)
    ensures
        b == is_whitespace(c),
{
    ('\u{9}' <= c && c <= '\u{D}') || c == ' ' || c == '\u{85}' || c == '\u{A0}' || c
        == '\u{1680}' || ('\u{2000}' <= c && c <= '\u{200A}') || c == '\u{2028}' || c
        == '\u{2029}' || c == '\u{202F}' || c == '\u{205F}' || c == '\u{3000}'
}

/// The characters of `s`, in order.
pub fn chars_of(s: &str) -> (chars: Vec<char>)
    ensures
        chars@ == s@,
{
    let mut chars: Vec<char> = Vec::new();
    for c in it: s.chars()
        invariant
            it.seq() == s@,
            chars@ == it.seq().take(it.index() as int),
    {
        chars.push(c);
    }
    chars
}

/// The first position at or after `from` that holds no whitespace, or the
/// length of `chars` if there is none.
pub fn skip_whitespace(chars: &Vec<char>, from: usize) -> (to: usize)
    requires
        from <= chars.len(),
    ensures
        from <= to <= chars.len(),
        to == from + leading_whitespace(chars@.skip(from as int)),
{
    let mut to: usize = from;
    while to < chars.len() && whitespace(chars[to])
        invariant
            from <= to <= chars.len(),
            forall|j: int| from <= j < to ==> is_whitespace(#[trigger] chars@[j]),
        decreases chars.len() - to,
    {
        to += 1;
    }
    proof {
        lemma_leading_whitespace(chars@.skip(from as int), to - from);
    }
    to
}

/// The first position at or after `from` that holds whitespace, or the length
/// of `chars` if there is none.
pub fn skip_word(chars: &Vec<char>, from: usize) -> (to: usize)
    requires
        from <= chars.len(),
    ensures
        from <= to <= chars.len(),
        to == from + leading_word(chars@.skip(from as int)),
{
    let mut to: usize = from;
    while to < chars.len() && !whitespace(chars[to])
        invariant
            from <= to <= chars.len(),
            forall|j: int| from <= j < to ==> !is_whitespace(#[trigger] chars@[j]),
        decreases chars.len() - to,
    {
        to += 1;
    }
    proof {
        lemma_leading_word(chars@.skip(from as int), to - from);
    }
    to
}

/// The encoding of two sequences in a row is the two encodings in a row, and
/// the second begins at a character boundary.
pub proof fn lemma_encoding_splits(front: Seq<char>, back: Seq<char>)
    ensures
        encode_utf8(front + back) == encode_utf8(front) + encode_utf8(back),
        is_char_boundary(encode_utf8(front + back), encode_utf8(front).len() as int),
    decreases front.len(),
{
    let whole = front + back;
    encode_utf8_valid_utf8(whole);
    if front.len() > 0 {
        let rest = front.drop_first();
        lemma_encoding_splits(rest, back);
        assert(whole.drop_first() =~= rest + back);
        encode_utf8_first_scalar(whole);
        assert(pop_first_scalar(encode_utf8(whole)) =~= encode_utf8(rest + back));
    }
}

/// The first `at` characters of `s`, and the rest of it, in time that grows
/// with `at` alone.
pub fn split_chars(s: &str, at: usize) -> (parts: (&str, &str))
    requires
        at <= s@.len(),
    ensures
        parts.0@ == s@.take(at as int),
        parts.1@ == s@.skip(at as int),
{
    let front = s.substring_char(0, at);
    let mid = front.as_bytes().len();
    proof {
        assert(s@ =~= front@ + s@.skip(at as int));
        lemma_encoding_splits(front@, s@.skip(at as int));
    }
    let parts = s.split_at(mid);
    proof {
        let bytes = s.spec_bytes();
        assert(bytes.subrange(0, mid as int) =~= encode_utf8(front@));
        assert(bytes.subrange(mid as int, bytes.len() as int) =~= encode_utf8(s@.skip(at as int)));
        encode_utf8_decode_utf8(parts.0@);
        encode_utf8_decode_utf8(front@);
        encode_utf8_decode_utf8(parts.1@);
        encode_utf8_decode_utf8(s@.skip(at as int));
    }
    parts
}

/// Whether `needle` stands in `hay` at position `at`.
pub fn matches_at(hay: &Vec<char>, needle: &Vec<char>, at: usize) -> (found: bool)
    ensures
        found == occurs_at(hay@, needle@, at as int),
{
    if at > hay.len() || needle.len() > hay.len() - at {
        return false;
    }
    let mut k: usize = 0;
    while k < needle.len()
        invariant
            k <= needle.len(),
            at + needle.len() <= hay.len(),
            forall|j: int| 0 <= j < k ==> hay@[at + j] == needle@[j],
        decreases needle.len() - k,
    {
        if hay[at + k] != needle[k] {
            return false;
        }
        k += 1;
    }
    assert(hay@.subrange(at as int, at + needle.len()) =~= needle@);
    true
}

/// Whether `needle` is a contiguous part of `hay`.
pub fn contains_chars(hay: &Vec<char>, needle: &Vec<char>) -> (found: bool)
    ensures
        found == contains(hay@, needle@),
{
    if needle.len() > hay.len() {
        return false;
    }
    let last: usize = hay.len() - needle.len();
    let mut at: usize = 0;
    loop
        invariant
            at <= last,
            last + needle.len() == hay.len(),
            forall|k: int| 0 <= k < at ==> !occurs_at(hay@, needle@, k),
        decreases last - at,
    {
        if matches_at(hay, needle, at) {
            return true;
        }
        if at == last {
            return false;
        }
        at += 1;
    }
}

} // verus!
