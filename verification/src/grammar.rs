//! The grammar of versions, stated as the shape of a text, and the law that
//! the parser reads exactly the texts of that shape.

use crate::digits::{
    all_digits, decimal_value, is_digit, leading_digits, lemma_decimal_value_bound,
    lemma_leading_digits, lemma_leading_digits_run,
};
use crate::parser::{
    after_major, after_minor, after_patch, number_at, parsed, suffix_at, with_suffix,
    without_version_prefix, ParseError,
};
use crate::version::{Version, VersionState};
use vstd::prelude::*;

verus! {

/// `d` is a number of the grammar that denotes `n`: one or more decimal
/// digits whose value is `n`.
pub open spec fn is_number(d: Seq<char>, n: usize) -> bool {
    d.len() > 0 && all_digits(d) && decimal_value(d) == n
}

/// `t` is a dot followed by a number that denotes `n`.
pub open spec fn is_dotted_number(t: Seq<char>, n: usize) -> bool {
    t.len() > 0 && t[0] == '.' && is_number(t.skip(1), n)
}

/// `t` is the tag of the qualifier followed by a number that denotes the
/// number of the qualifier. No text is a release.
pub open spec fn is_qualifier(t: Seq<char>, state: VersionState) -> bool {
    match state {
        VersionState::Alpha(n) => "alpha"@.is_prefix_of(t) && is_number(t.skip(5), n),
        VersionState::Beta(n) => "beta"@.is_prefix_of(t) && is_number(t.skip(4), n),
        VersionState::ReleaseCandidate(n) => "rc"@.is_prefix_of(t) && is_number(t.skip(2), n),
        VersionState::Release => false,
    }
}

/// The text that follows the numbers of a version is the qualifier of the
/// version, or empty where the version has none.
pub open spec fn is_tail(t: Seq<char>, pre: Option<VersionState>) -> bool {
    match pre {
        Some(state) => is_qualifier(t, state),
        None => t.len() == 0,
    }
}

/// The text between the numbers of a version is a dot and the next number
/// of the version, or empty where the version has none.
pub open spec fn is_optional_number(t: Seq<char>, n: Option<usize>) -> bool {
    match n {
        Some(n) => is_dotted_number(t, n),
        None => t.len() == 0,
    }
}

/// The text `s`, cut at the indices `a`, `b`, `c` and `d`, is the version
/// `v` as the grammar writes it: an optional `v` or `V` up to `a`, the
/// major number up to `b`, a dot and the minor number up to `c` if `v` has
/// one, a dot and the patch number up to `d` if `v` has one, and the
/// qualifier up to the end if `v` has one. A patch number comes only with
/// a minor number.
pub open spec fn spells_at(s: Seq<char>, v: Version, a: int, b: int, c: int, d: int) -> bool {
    &&& 0 <= a <= b <= c <= d <= s.len()
    &&& a == 0 || (a == 1 && (s[0] == 'v' || s[0] == 'V'))
    &&& is_number(s.subrange(a, b), v.major)
    &&& is_optional_number(s.subrange(b, c), v.minor)
    &&& is_optional_number(s.subrange(c, d), v.patch)
    &&& v.patch is Some ==> v.minor is Some
    &&& is_tail(s.subrange(d, s.len() as int), v.pre)
}

/// The text `s` is the version `v` as the grammar writes it.
pub open spec fn spells(s: Seq<char>, v: Version) -> bool {
    exists|a: int, b: int, c: int, d: int| spells_at(s, v, a, b, c, d)
}

/// A number of the grammar at the start of a text, followed by no digit,
/// is read as the number that it denotes.
proof fn lemma_number_read(t: Seq<char>, k: int, n: usize)
    requires
        0 < k <= t.len(),
        is_number(t.take(k), n),
        k < t.len() ==> !is_digit(t[k]),
    ensures
        number_at(t) == Some((t.skip(k), n)),
{
    lemma_leading_digits(t, k);
}

/// What is read as a number is a number of the grammar, followed by no
/// digit.
proof fn lemma_number_at_some(t: Seq<char>)
    ensures
        number_at(t) matches Some((rest, n)) ==> {
            let k = leading_digits(t);
            &&& 0 < k <= t.len()
            &&& rest == t.skip(k)
            &&& is_number(t.take(k), n)
            &&& k < t.len() ==> !is_digit(t[k])
        },
{
    lemma_leading_digits_run(t);
    lemma_decimal_value_bound(t.take(leading_digits(t)));
}

/// A dot and a number of the grammar at the start of a text, followed by
/// no digit, are read as that number.
proof fn lemma_dotted_number_read(t: Seq<char>, k: int, n: usize)
    requires
        0 <= k <= t.len(),
        is_dotted_number(t.take(k), n),
        k < t.len() ==> !is_digit(t[k]),
    ensures
        t.len() > 0,
        t[0] == '.',
        number_at(t.skip(1)) == Some((t.skip(k), n)),
{
    let u = t.skip(1);
    assert(t.take(k)[0] == t[0]);
    assert(u.take(k - 1) =~= t.take(k).skip(1));
    assert(k - 1 < u.len() ==> u[k - 1] == t[k]);
    lemma_number_read(u, k - 1, n);
    assert(u.skip(k - 1) =~= t.skip(k));
}

/// The length of the dot and the number that a text starts with.
pub open spec fn dotted_number_len(t: Seq<char>) -> int {
    1 + leading_digits(t.skip(1))
}

/// A dot and what is read as a number behind it are a dot and a number of
/// the grammar, followed by no digit.
proof fn lemma_dotted_number_at_some(t: Seq<char>)
    requires
        t.len() > 0,
        t[0] == '.',
    ensures
        number_at(t.skip(1)) matches Some((rest, n)) ==> {
            let k = dotted_number_len(t);
            &&& 1 < k <= t.len()
            &&& rest == t.skip(k)
            &&& is_dotted_number(t.take(k), n)
        },
{
    let u = t.skip(1);
    lemma_number_at_some(u);
    if let Some((rest, n)) = number_at(u) {
        let k = dotted_number_len(t);
        assert(t.take(k).skip(1) =~= u.take(k - 1));
        assert(u.skip(k - 1) =~= t.skip(k));
    }
}

/// A qualifier of the grammar starts with a letter and is read as the
/// qualifier that it denotes, with nothing left.
proof fn lemma_qualifier_read(t: Seq<char>, state: VersionState)
    requires
        is_qualifier(t, state),
    ensures
        t.len() > 0,
        t[0] != '.',
        !is_digit(t[0]),
        suffix_at(t) == Some((Seq::<char>::empty(), state)),
{
    reveal_strlit("alpha");
    reveal_strlit("beta");
    reveal_strlit("rc");
    match state {
        VersionState::Alpha(n) => {
            let rest = t.skip(5);
            assert(t[0] == "alpha"@[0]);
            assert(rest.take(rest.len() as int) =~= rest);
            lemma_number_read(rest, rest.len() as int, n);
            assert(rest.skip(rest.len() as int) =~= Seq::<char>::empty());
        },
        VersionState::Beta(n) => {
            let rest = t.skip(4);
            assert(t[0] == "beta"@[0]);
            assert(!"alpha"@.is_prefix_of(t)) by {
                if "alpha"@.is_prefix_of(t) {
                    assert("alpha"@[0] == t[0]);
                }
            }
            assert(rest.take(rest.len() as int) =~= rest);
            lemma_number_read(rest, rest.len() as int, n);
            assert(rest.skip(rest.len() as int) =~= Seq::<char>::empty());
        },
        VersionState::ReleaseCandidate(n) => {
            let rest = t.skip(2);
            assert(t[0] == "rc"@[0]);
            assert(!"alpha"@.is_prefix_of(t)) by {
                if "alpha"@.is_prefix_of(t) {
                    assert("alpha"@[0] == t[0]);
                }
            }
            assert(!"beta"@.is_prefix_of(t)) by {
                if "beta"@.is_prefix_of(t) {
                    assert("beta"@[0] == t[0]);
                }
            }
            assert(rest.take(rest.len() as int) =~= rest);
            lemma_number_read(rest, rest.len() as int, n);
            assert(rest.skip(rest.len() as int) =~= Seq::<char>::empty());
        },
        VersionState::Release => {},
    }
}

/// What is read as a qualifier with nothing left is a qualifier of the
/// grammar.
proof fn lemma_suffix_at_some(t: Seq<char>)
    ensures
        suffix_at(t) matches Some((rest, state)) ==> (rest.len() == 0 ==> is_qualifier(t, state)),
{
    reveal_strlit("alpha");
    reveal_strlit("beta");
    reveal_strlit("rc");
    if let Some((rest, state)) = suffix_at(t) {
        if rest.len() == 0 {
            let body = if "alpha"@.is_prefix_of(t) {
                t.skip(5)
            } else if "beta"@.is_prefix_of(t) {
                t.skip(4)
            } else {
                t.skip(2)
            };
            lemma_number_at_some(body);
            let k = leading_digits(body);
            assert(body.skip(k).len() == 0);
            assert(k == body.len());
            assert(body.take(k) =~= body);
        }
    }
}

/// Reading the tail of a text that is as the grammar asks completes the
/// version by the qualifier of the tail.
proof fn lemma_tail_read(base: Version, t: Seq<char>, pre: Option<VersionState>)
    requires
        base.pre is None,
        is_tail(t, pre),
    ensures
        after_patch(base, t) == Ok::<Version, ParseError>(Version { pre, ..base }),
        t.len() > 0 ==> t[0] != '.' && !is_digit(t[0]) && with_suffix(base, t) == Ok::<
            Version,
            ParseError,
        >(Version { pre, ..base }),
{
    if let Some(state) = pre {
        lemma_qualifier_read(t, state);
    }
}

/// Reading what follows the minor number: an optional patch number up to
/// `k` and the tail.
proof fn lemma_patch_read(
    base: Version,
    t: Seq<char>,
    k: int,
    patch: Option<usize>,
    pre: Option<VersionState>,
)
    requires
        base.patch is None,
        base.pre is None,
        0 <= k <= t.len(),
        is_optional_number(t.take(k), patch),
        is_tail(t.skip(k), pre),
    ensures
        after_minor(base, t) == Ok::<Version, ParseError>(Version { patch, pre, ..base }),
        t.len() > 0 ==> !is_digit(t[0]),
{
    let tail = t.skip(k);
    match patch {
        Some(p) => {
            lemma_tail_read(Version { patch, ..base }, tail, pre);
            assert(k < t.len() ==> t[k] == tail[0]);
            lemma_dotted_number_read(t, k, p);
        },
        None => {
            assert(t.skip(0) =~= t);
            lemma_tail_read(base, t, pre);
        },
    }
}

/// Reading what follows the major number: an optional minor number up to
/// `j`, an optional patch number up to `k` and the tail.
proof fn lemma_minor_read(
    base: Version,
    t: Seq<char>,
    j: int,
    k: int,
    minor: Option<usize>,
    patch: Option<usize>,
    pre: Option<VersionState>,
)
    requires
        base.minor is None,
        base.patch is None,
        base.pre is None,
        0 <= j <= k <= t.len(),
        patch is Some ==> minor is Some,
        is_optional_number(t.take(j), minor),
        is_optional_number(t.subrange(j, k), patch),
        is_tail(t.skip(k), pre),
    ensures
        after_major(base, t) == Ok::<Version, ParseError>(Version { minor, patch, pre, ..base }),
        t.len() > 0 ==> !is_digit(t[0]),
{
    match minor {
        Some(m) => {
            let u = t.skip(j);
            assert(u.take(k - j) =~= t.subrange(j, k));
            assert(u.skip(k - j) =~= t.skip(k));
            lemma_patch_read(Version { minor, ..base }, u, k - j, patch, pre);
            assert(j < t.len() ==> t[j] == u[0]);
            lemma_dotted_number_read(t, j, m);
        },
        None => {
            assert(t.skip(0) =~= t);
            assert(t.subrange(j, k).len() == 0);
            lemma_tail_read(base, t, pre);
        },
    }
}

/// A text that is a version as the grammar writes it is read as that
/// version.
pub proof fn lemma_spelled_is_parsed(s: Seq<char>, v: Version)
    requires
        spells(s, v),
    ensures
        parsed(s) == Ok::<Version, ParseError>(v),
{
    let (a, b, c, d) = choose|a: int, b: int, c: int, d: int| spells_at(s, v, a, b, c, d);
    let base = Version { major: v.major, minor: None, patch: None, pre: None };
    let s0 = s.skip(a);
    let t = s.skip(b);
    assert(without_version_prefix(s) == s0) by {
        if a == 0 {
            assert(s.skip(0) =~= s);
            assert(is_digit(s.subrange(a, b)[0]));
            assert(s.subrange(a, b)[0] == s[0]);
        }
    }
    assert(t.take(c - b) =~= s.subrange(b, c));
    assert(t.subrange(c - b, d - b) =~= s.subrange(c, d));
    assert(t.skip(d - b) =~= s.subrange(d, s.len() as int));
    lemma_minor_read(base, t, c - b, d - b, v.minor, v.patch, v.pre);
    assert(s0.take(b - a) =~= s.subrange(a, b));
    assert(b - a < s0.len() ==> s0[b - a] == t[0]);
    lemma_number_read(s0, b - a, v.major);
    assert(s0.skip(b - a) =~= t);
}

/// What completes a version behind its patch number is the tail of the
/// grammar.
proof fn lemma_tail_spelled(base: Version, t: Seq<char>, v: Version)
    requires
        base.pre is None,
        after_patch(base, t) == Ok::<Version, ParseError>(v) || (t.len() > 0 && with_suffix(
            base,
            t,
        ) == Ok::<Version, ParseError>(v)),
    ensures
        v == (Version { pre: v.pre, ..base }),
        is_tail(t, v.pre),
{
    lemma_suffix_at_some(t);
}

/// What completes a version behind its minor number is an optional patch
/// number and the tail of the grammar.
proof fn lemma_patch_spelled(base: Version, t: Seq<char>, v: Version) -> (k: int)
    requires
        base.patch is None,
        base.pre is None,
        after_minor(base, t) == Ok::<Version, ParseError>(v),
    ensures
        v == (Version { patch: v.patch, pre: v.pre, ..base }),
        0 <= k <= t.len(),
        is_optional_number(t.take(k), v.patch),
        is_tail(t.skip(k), v.pre),
{
    if t.len() == 0 || t[0] != '.' {
        assert(t.skip(0) =~= t);
        lemma_tail_spelled(base, t, v);
        0
    } else {
        lemma_dotted_number_at_some(t);
        let k = dotted_number_len(t);
        let (rest, p) = number_at(t.skip(1))->0;
        lemma_tail_spelled(Version { patch: Some(p), ..base }, rest, v);
        k
    }
}

/// What completes a version behind its major number is an optional minor
/// number, an optional patch number and the tail of the grammar.
proof fn lemma_minor_spelled(base: Version, t: Seq<char>, v: Version) -> (cuts: (int, int))
    requires
        base.minor is None,
        base.patch is None,
        base.pre is None,
        after_major(base, t) == Ok::<Version, ParseError>(v),
    ensures
        v == (Version { minor: v.minor, patch: v.patch, pre: v.pre, ..base }),
        0 <= cuts.0 <= cuts.1 <= t.len(),
        v.patch is Some ==> v.minor is Some,
        is_optional_number(t.take(cuts.0), v.minor),
        is_optional_number(t.subrange(cuts.0, cuts.1), v.patch),
        is_tail(t.skip(cuts.1), v.pre),
{
    if t.len() == 0 || t[0] != '.' {
        assert(t.skip(0) =~= t);
        lemma_tail_spelled(base, t, v);
        (0, 0)
    } else {
        lemma_dotted_number_at_some(t);
        let j = dotted_number_len(t);
        let (rest, m) = number_at(t.skip(1))->0;
        let k = lemma_patch_spelled(Version { minor: Some(m), ..base }, rest, v);
        assert(rest.take(k) =~= t.subrange(j, j + k));
        assert(rest.skip(k) =~= t.skip(j + k));
        (j, j + k)
    }
}

/// A text that is read as a version is that version as the grammar writes
/// it.
pub proof fn lemma_parsed_is_spelled(s: Seq<char>, v: Version)
    requires
        parsed(s) == Ok::<Version, ParseError>(v),
    ensures
        spells(s, v),
{
    let a: int = if s.len() > 0 && (s[0] == 'v' || s[0] == 'V') {
        1
    } else {
        0
    };
    let s0 = s.skip(a);
    assert(s.skip(0) =~= s);
    lemma_number_at_some(s0);
    let b = a + leading_digits(s0);
    let t = s.skip(b);
    assert(s0.take(b - a) =~= s.subrange(a, b));
    assert(s0.skip(b - a) =~= t);
    let base = Version { major: v.major, minor: None, patch: None, pre: None };
    let (j, k) = lemma_minor_spelled(base, t, v);
    let c = b + j;
    let d = b + k;
    assert(t.take(j) =~= s.subrange(b, c));
    assert(t.subrange(j, k) =~= s.subrange(c, d));
    assert(t.skip(k) =~= s.subrange(d, s.len() as int));
    assert(spells_at(s, v, a, b, c, d));
}

/// The parser reads exactly the texts of the grammar: a text is read as a
/// version if and only if it is that version as the grammar writes it.
pub proof fn lemma_parsed_iff_spells(s: Seq<char>, v: Version)
    ensures
        parsed(s) == Ok::<Version, ParseError>(v) <==> spells(s, v),
{
    if parsed(s) == Ok::<Version, ParseError>(v) {
        lemma_parsed_is_spelled(s, v);
    }
    if spells(s, v) {
        lemma_spelled_is_parsed(s, v);
    }
}

/// The parser accepts exactly the texts of the grammar: it reads a text as
/// some version if and only if the text is some version as the grammar
/// writes it, and fails on every other text.
pub proof fn lemma_accepted_iff_spelled(s: Seq<char>)
    ensures
        parsed(s) is Ok <==> exists|v: Version| spells(s, v),
        parsed(s) is Err <==> forall|v: Version| !spells(s, v),
{
    if let Ok(v) = parsed(s) {
        lemma_parsed_is_spelled(s, v);
    }
    if exists|v: Version| spells(s, v) {
        let v = choose|v: Version| spells(s, v);
        lemma_spelled_is_parsed(s, v);
    }
    assert forall|v: Version| parsed(s) is Err implies !spells(s, v) by {
        if spells(s, v) {
            lemma_spelled_is_parsed(s, v);
        }
    }
}

} // verus!
