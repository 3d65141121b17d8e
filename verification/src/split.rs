//! Splitting a string on the `_` delimiter, as the parser's specification
//! sees it: the same segments, in the same order, that `str::split('_')`
//! yields, including the empty segments around adjacent delimiters.

use vstd::prelude::*;

verus! {

/// The segments of `s` between occurrences of `_`.
///
/// A string with no delimiter is one segment; every delimiter adds one,
/// so the result is never empty and the empty string is one empty
/// segment.
pub open spec fn spec_split(s: Seq<char>) -> Seq<Seq<char>>
    decreases s.len(),
{
    if s.len() == 0 {
        seq![Seq::<char>::empty()]
    } else if s[0] == '_' {
        seq![Seq::<char>::empty()] + spec_split(s.subrange(1, s.len() as int))
    } else {
        let rest = spec_split(s.subrange(1, s.len() as int));
        rest.update(0, seq![s[0]] + rest[0])
    }
}

/// Splitting yields at least one segment.
pub proof fn lemma_split_len(s: Seq<char>)
    ensures
        spec_split(s).len() >= 1,
    decreases s.len(),
{
    if s.len() == 0 {
    } else {
        lemma_split_len(s.subrange(1, s.len() as int));
    }
}

/// Reading up to the first delimiter: if nothing before position `i` is
/// a delimiter, the first segment is exactly `s[0..i]`; when `i` is a
/// delimiter position the rest of the segments are those of what
/// follows it, and when `i` is the end of the string there are no more.
pub proof fn lemma_split_at(s: Seq<char>, i: int)
    requires
        0 <= i <= s.len(),
        forall|j: int| 0 <= j < i ==> s[j] != '_',
        i < s.len() ==> s[i] == '_',
    ensures
        i < s.len() ==> spec_split(s) =~~= seq![s.subrange(0, i)] + spec_split(
            s.subrange(i + 1, s.len() as int),
        ),
        i == s.len() ==> spec_split(s) =~~= seq![s],
    decreases s.len(),
{
    if i == 0 {
        if i < s.len() {
            assert(s.subrange(0, 0) =~= Seq::<char>::empty());
        } else {
            assert(s =~= Seq::<char>::empty());
        }
    } else {
        let tail = s.subrange(1, s.len() as int);
        lemma_split_at(tail, i - 1);
        let rest = spec_split(tail);
        lemma_split_len(tail);
        if i < s.len() {
            assert(tail.subrange(0, i - 1) =~= s.subrange(1, i));
            assert(tail.subrange(i, tail.len() as int) =~= s.subrange(i + 1, s.len() as int));
            assert(rest[0] == s.subrange(1, i));
            assert(seq![s[0]] + rest[0] =~= s.subrange(0, i));
        } else {
            assert(rest[0] == tail);
            assert(seq![s[0]] + tail =~= s);
        }
    }
}

/// A string without the delimiter is a single segment.
pub proof fn lemma_split_single(s: Seq<char>)
    requires
        forall|j: int| 0 <= j < s.len() ==> s[j] != '_',
    ensures
        spec_split(s) =~~= seq![s],
{
    lemma_split_at(s, s.len() as int);
}

/// Splitting a segment, a delimiter and a remainder yields the segment
/// followed by the remainder's own segments.
pub proof fn lemma_split_concat(a: Seq<char>, rest: Seq<char>)
    requires
        forall|j: int| 0 <= j < a.len() ==> a[j] != '_',
    ensures
        spec_split(a + seq!['_'] + rest) =~~= seq![a] + spec_split(rest),
{
    let s = a + seq!['_'] + rest;
    lemma_split_at(s, a.len() as int);
    assert(s.subrange(0, a.len() as int) =~= a);
    assert(s.subrange(a.len() as int + 1, s.len() as int) =~= rest);
}

} // verus!
