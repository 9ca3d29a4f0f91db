//! Strings taken character by character: searching, splitting, replacing.

use vstd::prelude::*;

verus! {

/// The characters of a string, in order.
pub fn chars_of(s: &str) -> (chars: Vec<char>)
    ensures
        chars@ == s@,
{
    let mut chars: Vec<char> = Vec::new();
    for c in it: s.chars()
        invariant
            chars@ == it.seq().take(it.index() as int),
    {
        chars.push(c);
    }
    chars
}

/// `needle` stands in `hay` at position `at`.
pub open spec fn occurs_at(hay: Seq<char>, needle: Seq<char>, at: int) -> bool {
    &&& 0 <= at
    &&& at + needle.len() <= hay.len()
    &&& hay.subrange(at, at + needle.len()) == needle
}

/// `needle` stands somewhere in `hay`.
pub open spec fn contains_text(hay: Seq<char>, needle: Seq<char>) -> bool {
    exists|at: int| occurs_at(hay, needle, at)
}

/// Tests whether `needle` stands in `hay` at position `at`.
pub fn occurs_at_index(hay: &Vec<char>, needle: &Vec<char>, at: usize) -> (found: bool)
    ensures
        found == occurs_at(hay@, needle@, at as int),
{
    if needle.len() > hay.len() || at > hay.len() - needle.len() {
        return false;
    }
    let mut k: usize = 0;
    while k < needle.len()
        invariant
            k <= needle.len(),
            at + needle.len() <= hay.len(),
            forall|j: int| 0 <= j < k ==> hay@[at + j] == needle@[j],
        decreases needle.len() - k,
    {
        if hay[at + k] != needle[k] {
            return false;
        }
        k += 1;
    }
    assert(hay@.subrange(at as int, at + needle.len()) =~= needle@);
    true
}

/// The first position at or after `from` at which `needle` stands in `hay`.
pub fn find_from(hay: &Vec<char>, needle: &Vec<char>, from: usize) -> (found: Option<usize>)
    ensures
        match found {
            Some(at) => {
                &&& from <= at
                &&& occurs_at(hay@, needle@, at as int)
                &&& forall|j: int| from <= j < at ==> !occurs_at(hay@, needle@, j)
            },
            None => forall|j: int| from <= j ==> !occurs_at(hay@, needle@, j),
        },
{
    if from > hay.len() {
        return None;
    }
    let mut at: usize = from;
    while at < hay.len()
        invariant
            from <= at <= hay.len(),
            forall|j: int| from <= j < at ==> !occurs_at(hay@, needle@, j),
        decreases hay.len() - at,
    {
        if occurs_at_index(hay, needle, at) {
            return Some(at);
        }
        at += 1;
    }
    if occurs_at_index(hay, needle, at) {
        Some(at)
    } else {
        None
    }
}

/// Tests whether `needle` stands somewhere in `hay`.
pub fn contains(hay: &str, needle: &str) -> (found: bool)
    ensures
        found == contains_text(hay@, needle@),
{
    let hay_chars = chars_of(hay);
    let needle_chars = chars_of(needle);
    find_from(&hay_chars, &needle_chars, 0).is_some()
}

/// Tests whether `s` ends with `suffix`.
pub fn ends_with(s: &str, suffix: &str) -> (found: bool)
    ensures
        found == suffix@.is_suffix_of(s@),
{
    let chars = chars_of(s);
    let suffix_chars = chars_of(suffix);
    if suffix_chars.len() > chars.len() {
        return false;
    }
    occurs_at_index(&chars, &suffix_chars, chars.len() - suffix_chars.len())
}

/// The number of characters of `s` that stand before its first `sep`; the
/// whole length where `s` holds no `sep`.
pub open spec fn span_until(s: Seq<char>, sep: char) -> nat
    decreases s.len(),
{
    if s.len() == 0 || s[0] == sep {
        0
    } else {
        1 + span_until(s.drop_first(), sep)
    }
}

/// The pieces into which the occurrences of `sep` cut `s`. There is always
/// at least one piece, and a piece may be empty: the empty text gives one
/// empty piece, and a `sep` at the end gives an empty last piece.
pub open spec fn split_on(s: Seq<char>, sep: char) -> Seq<Seq<char>>
    decreases s.len(),
{
    let n = span_until(s, sep) as int;
    if n >= s.len() {
        seq![s]
    } else {
        seq![s.take(n)] + split_on(s.skip(n + 1), sep)
    }
}

/// `s` with every occurrence of `from` replaced by `to`, the occurrences
/// taken from the left and not overlapping. An empty `from` occurs nowhere.
pub open spec fn replace_all(s: Seq<char>, from: Seq<char>, to: Seq<char>) -> Seq<char>
    decreases s.len(),
{
    if s.len() == 0 {
        s
    } else if from.len() > 0 && from.is_prefix_of(s) {
        to + replace_all(s.skip(from.len() as int), from, to)
    } else {
        seq![s[0]] + replace_all(s.skip(1), from, to)
    }
}

/// `span_until` is the first position that holds `sep`, or the length.
pub proof fn lemma_span_until(s: Seq<char>, sep: char, n: int)
    requires
        0 <= n <= s.len(),
        forall|j: int| 0 <= j < n ==> s[j] != sep,
        n == s.len() || s[n] == sep,
    ensures
        span_until(s, sep) == n,
    decreases s.len(),
{
    if n > 0 {
        let rest = s.drop_first();
        assert(forall|j: int| 0 <= j < n - 1 ==> rest[j] == s[j + 1]);
        lemma_span_until(rest, sep, n - 1);
    }
}

/// The bounds of `span_until`, and what stands at it.
pub proof fn lemma_span_until_bounds(s: Seq<char>, sep: char)
    ensures
        span_until(s, sep) <= s.len(),
        span_until(s, sep) < s.len() ==> s[span_until(s, sep) as int] == sep,
        forall|j: int| 0 <= j < span_until(s, sep) ==> s[j] != sep,
    decreases s.len(),
{
    if s.len() > 0 && s[0] != sep {
        let rest = s.drop_first();
        lemma_span_until_bounds(rest, sep);
        assert forall|j: int| 0 <= j < span_until(s, sep) implies s[j] != sep by {
            if j > 0 {
                assert(rest[j - 1] == s[j]);
            }
        }
    }
}

/// Cuts `s` at every occurrence of `sep`.
pub fn split(s: &str, sep: char) -> (pieces: Vec<String>)
    ensures
        pieces.deep_view() == split_on(s@, sep),
{
    let chars = chars_of(s);
    let mut pieces: Vec<String> = Vec::new();
    let mut start: usize = 0;
    let mut i: usize = 0;
    assert(s@.skip(0) =~= s@);
    while i < chars.len()
        invariant
            chars@ == s@,
            start <= i <= chars.len(),
            forall|j: int| start <= j < i ==> chars@[j] != sep,
            split_on(s@, sep) == pieces.deep_view() + split_on(s@.skip(start as int), sep),
        decreases chars.len() - i,
    {
        if chars[i] == sep {
            let piece = s.substring_char(start, i).to_owned();
            proof {
                let rest = s@.skip(start as int);
                lemma_span_until(rest, sep, i - start);
                assert(rest.take(i - start) =~= s@.subrange(start as int, i as int));
                assert(rest.skip(i - start + 1) =~= s@.skip(i + 1));
            }
            pieces.push(piece);
            start = i + 1;
        }
        i += 1;
    }
    let piece = s.substring_char(start, i).to_owned();
    proof {
        let rest = s@.skip(start as int);
        lemma_span_until(rest, sep, i - start);
    }
    pieces.push(piece);
    pieces
}

} // verus!
