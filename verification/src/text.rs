//! Working with text as sequences of characters: conversion from and to
//! strings, and searching, splitting and joining.

use vstd::prelude::*;

verus! {

/// `String::push` appends the character to the end of the string.
pub assume_specification[ String::push ](s: &mut String, c: char)
    ensures
        final(s)@ == old(s)@.push(c),
;

/// What `str::to_lowercase` makes of a text: its lowercase equivalent by
/// the rules of Unicode.
pub uninterp spec fn lowercase(s: Seq<char>) -> Seq<char>;

/// `str::to_lowercase` returns the lowercase equivalent of the text, which
/// depends on the text alone; nothing more is claimed of it.
pub assume_specification[ str::to_lowercase ](s: &str) -> (lower: String)
    ensures
        lower@ == lowercase(s@),
;

/// The characters of a string, in order.
pub fn chars_of(s: &str) -> (v: Vec<char>)
    ensures
        v@ == s@,
{
    let mut v: Vec<char> = Vec::new();
    for c in it: s.chars()
        invariant
            it.seq() == s@,
            v@ == s@.take(it.index() as int),
    {
        v.push(c);
    }
    v
}

/// The string made of the given characters.
pub fn string_of(v: &[char]) -> (s: String)
    ensures
        s@ == v@,
{
    let mut s = String::new();
    let mut i: usize = 0;
    while i < v.len()
        invariant
            i <= v.len(),
            s@ == v@.take(i as int),
        decreases v.len() - i,
    {
        s.push(v[i]);
        i += 1;
    }
    s
}

/// Appends the given characters to a string.
pub fn push_chars(out: &mut String, v: &[char])
    ensures
        final(out)@ == old(out)@ + v@,
{
    let mut i: usize = 0;
    while i < v.len()
        invariant
            i <= v.len(),
            out@ == old(out)@ + v@.take(i as int),
        decreases v.len() - i,
    {
        out.push(v[i]);
        i += 1;
    }
}

/// The index at which `pat` first occurs in `s`.
pub open spec fn first_occurrence(s: Seq<char>, pat: Seq<char>) -> Option<int>
    decreases s.len(),
{
    if pat.is_prefix_of(s) {
        Some(0)
    } else if s.len() == 0 {
        None
    } else {
        match first_occurrence(s.drop_first(), pat) {
            Some(i) => Some(i + 1),
            None => None,
        }
    }
}

/// What follows the first occurrence of `pat` in `s`.
pub open spec fn after_first(s: Seq<char>, pat: Seq<char>) -> Option<Seq<char>> {
    match first_occurrence(s, pat) {
        Some(i) => Some(s.skip(i + pat.len())),
        None => None,
    }
}

/// `pat` occurs in `s`.
pub open spec fn occurs_in(pat: Seq<char>, s: Seq<char>) -> bool {
    first_occurrence(s, pat) is Some
}

/// `pat` occurs in `s` at the index `i`.
pub open spec fn occurs_at(pat: Seq<char>, s: Seq<char>, i: int) -> bool {
    0 <= i <= s.len() && pat.is_prefix_of(s.skip(i))
}

/// The first occurrence is an occurrence with none before it; where there
/// is none, the pattern occurs at no index.
pub proof fn lemma_first_occurrence(s: Seq<char>, pat: Seq<char>)
    ensures
        match first_occurrence(s, pat) {
            Some(i) => occurs_at(pat, s, i) && forall|j: int| 0 <= j < i ==> !occurs_at(pat, s, j),
            None => forall|j: int| 0 <= j <= s.len() ==> !occurs_at(pat, s, j),
        },
    decreases s.len(),
{
    assert(s.skip(0) =~= s);
    if pat.is_prefix_of(s) {
    } else if s.len() == 0 {
    } else {
        let t = s.drop_first();
        lemma_first_occurrence(t, pat);
        assert forall|j: int| 1 <= j <= s.len() implies s.skip(j) == t.skip(j - 1) by {
            assert(s.skip(j) =~= t.skip(j - 1));
        }
        match first_occurrence(t, pat) {
            Some(i) => {
                assert(occurs_at(pat, s, i + 1));
                assert forall|j: int| 0 <= j < i + 1 implies !occurs_at(pat, s, j) by {
                    if j > 0 {
                        assert(!occurs_at(pat, t, j - 1));
                    }
                }
            },
            None => {
                assert forall|j: int| 0 <= j <= s.len() implies !occurs_at(pat, s, j) by {
                    if j > 0 {
                        assert(!occurs_at(pat, t, j - 1));
                    }
                }
            },
        }
    }
}

/// The pattern occurs at `i` and nowhere before, so `i` is its first
/// occurrence.
pub proof fn lemma_first_occurrence_at(s: Seq<char>, pat: Seq<char>, i: int)
    requires
        occurs_at(pat, s, i),
        forall|j: int| 0 <= j < i ==> !occurs_at(pat, s, j),
    ensures
        first_occurrence(s, pat) == Some(i),
{
    lemma_first_occurrence(s, pat);
}

/// The pattern occurs at no index, so it has no first occurrence.
pub proof fn lemma_first_occurrence_none(s: Seq<char>, pat: Seq<char>)
    requires
        forall|j: int| 0 <= j <= s.len() ==> !occurs_at(pat, s, j),
    ensures
        first_occurrence(s, pat) is None,
{
    lemma_first_occurrence(s, pat);
}

/// Whether `pat` stands in `s` at the index `i`.
pub fn matches_at(s: &[char], pat: &[char], i: usize) -> (r: bool)
    ensures
        r == occurs_at(pat@, s@, i as int),
{
    if i > s.len() || pat.len() > s.len() - i {
        return false;
    }
    let mut k: usize = 0;
    while k < pat.len()
        invariant
            i + pat.len() <= s.len(),
            k <= pat.len(),
            forall|m: int| 0 <= m < k ==> pat@[m] == s@[i + m],
        decreases pat.len() - k,
    {
        if pat[k] != s[i + k] {
            assert(s@.skip(i as int)[k as int] == s@[i + k]);
            return false;
        }
        k += 1;
    }
    assert(pat@ =~= s@.skip(i as int).subrange(0, pat@.len() as int));
    true
}

/// Finds the first occurrence of `pat` in `s`.
pub fn find(s: &[char], pat: &[char]) -> (r: Option<usize>)
    ensures
        match r {
            Some(i) => first_occurrence(s@, pat@) == Some(i as int) && i + pat@.len() <= s@.len(),
            None => first_occurrence(s@, pat@) is None,
        },
{
    let mut i: usize = 0;
    loop
        invariant
            i <= s.len(),
            forall|j: int| 0 <= j < i ==> !occurs_at(pat@, s@, j),
        decreases s.len() - i,
    {
        if matches_at(s, pat, i) {
            proof {
                lemma_first_occurrence_at(s@, pat@, i as int);
            }
            return Some(i);
        }
        if i == s.len() {
            proof {
                lemma_first_occurrence_none(s@, pat@);
            }
            return None;
        }
        i += 1;
    }
}

/// The pieces of `s` between the occurrences of `sep`. A text without
/// `sep` is one piece; a separator at the start or the end has an empty
/// piece beside it.
pub open spec fn split_on(s: Seq<char>, sep: char) -> Seq<Seq<char>>
    decreases s.len(),
{
    if s.len() == 0 {
        seq![Seq::empty()]
    } else {
        let before = split_on(s.drop_last(), sep);
        if s.last() == sep {
            before.push(Seq::empty())
        } else {
            before.drop_last().push(before.last().push(s.last()))
        }
    }
}

/// The pieces joined, with `sep` between each two.
pub open spec fn joined(pieces: Seq<Seq<char>>, sep: Seq<char>) -> Seq<char>
    decreases pieces.len(),
{
    if pieces.len() == 0 {
        Seq::empty()
    } else if pieces.len() == 1 {
        pieces[0]
    } else {
        joined(pieces.drop_last(), sep) + sep + pieces.last()
    }
}

/// The views of the vectors of a sequence.
pub open spec fn views(pieces: Seq<Vec<char>>) -> Seq<Seq<char>> {
    pieces.map_values(|piece: Vec<char>| piece@)
}

/// Splits `s` at each occurrence of `sep`.
pub fn split(s: &[char], sep: char) -> (pieces: Vec<Vec<char>>)
    ensures
        views(pieces@) == split_on(s@, sep),
{
    let mut pieces: Vec<Vec<char>> = Vec::new();
    let mut piece: Vec<char> = Vec::new();
    let mut i: usize = 0;
    assert(views(pieces@).push(piece@) =~= split_on(s@.take(0), sep));
    while i < s.len()
        invariant
            i <= s.len(),
            views(pieces@).push(piece@) == split_on(s@.take(i as int), sep),
        decreases s.len() - i,
    {
        let ghost before = views(pieces@).push(piece@);
        proof {
            assert(s@.take(i + 1).drop_last() =~= s@.take(i as int));
            assert(before.drop_last() =~= views(pieces@));
        }
        if s[i] == sep {
            pieces.push(piece);
            piece = Vec::new();
            assert(views(pieces@).push(piece@) =~= before.push(Seq::empty()));
        } else {
            piece.push(s[i]);
            assert(views(pieces@).push(piece@) =~= before.drop_last().push(
                before.last().push(s@[i as int]),
            ));
        }
        i += 1;
    }
    assert(s@.take(s.len() as int) =~= s@);
    let ghost before = views(pieces@).push(piece@);
    pieces.push(piece);
    assert(views(pieces@) =~= before);
    pieces
}

/// Splitting cuts at every separator and nowhere else: no piece holds the
/// separator, and the pieces joined by it give the text back.
pub proof fn lemma_split_on(s: Seq<char>, sep: char)
    ensures
        split_on(s, sep).len() >= 1,
        forall|i: int|
            0 <= i < split_on(s, sep).len() ==> !(#[trigger] split_on(s, sep)[i]).contains(sep),
        joined(split_on(s, sep), seq![sep]) == s,
    decreases s.len(),
{
    let pieces = split_on(s, sep);
    if s.len() == 0 {
        assert(joined(pieces, seq![sep]) =~= s);
    } else {
        let before = split_on(s.drop_last(), sep);
        lemma_split_on(s.drop_last(), sep);
        if s.last() == sep {
            assert(pieces.drop_last() =~= before);
            assert(joined(pieces, seq![sep]) =~= s);
        } else {
            let grown = before.last().push(s.last());
            assert(!grown.contains(sep)) by {
                if grown.contains(sep) {
                    let k = choose|k: int| 0 <= k < grown.len() && grown[k] == sep;
                    assert(before.last()[k] == sep);
                    assert(before[before.len() - 1].contains(sep));
                }
            }
            assert forall|i: int| 0 <= i < pieces.len() implies !(#[trigger] pieces[i]).contains(
                sep,
            ) by {
                if i < pieces.len() - 1 {
                    assert(pieces[i] == before[i]);
                }
            }
            if before.len() == 1 {
                assert(joined(pieces, seq![sep]) =~= s);
            } else {
                assert(pieces.drop_last() =~= before.drop_last());
                assert(joined(pieces, seq![sep]) =~= joined(before, seq![sep]).push(s.last()));
                assert(joined(pieces, seq![sep]) =~= s);
            }
        }
    }
}

} // verus!
