//! Reading back what was written: the text of a version denotes that
//! version.

use crate::digits::{all_digits, decimal_value, digit_value};
use crate::format::{decimal_digits, dotted};
use crate::grammar::{
    is_number, is_optional_number, is_tail, lemma_spelled_is_parsed, spells, spells_at,
};
use crate::parser::{lemma_parsed_well_formed, parsed, ParseError};
use crate::version::{Version, VersionState};
use vstd::prelude::*;

verus! {

/// The decimal digits of a number are digits, at least one of them, and
/// denote that number.
pub proof fn lemma_decimal_digits_value(n: nat)
    ensures
        decimal_digits(n).len() >= 1,
        all_digits(decimal_digits(n)),
        decimal_value(decimal_digits(n)) == n,
    decreases n,
{
    if n < 10 {
        let s = decimal_digits(n);
        assert(decimal_value(s.drop_last()) == 0);
        assert(digit_value(s.last()) == n);
    } else {
        lemma_decimal_digits_value(n / 10);
        let s = decimal_digits(n);
        assert(s.drop_last() =~= decimal_digits(n / 10));
        assert(digit_value(s.last()) == n % 10);
        assert(decimal_value(s) == decimal_value(s.drop_last()) * 10 + digit_value(s.last()));
    }
}

/// The text of an optional qualifier.
pub open spec fn qualifier_text(pre: Option<VersionState>) -> Seq<char> {
    match pre {
        Some(state) => state.text(),
        None => Seq::empty(),
    }
}

/// The text of a dot and a number is a dot and a number of the grammar.
proof fn lemma_dotted_is_optional_number(n: Option<usize>)
    ensures
        is_optional_number(dotted(n), n),
{
    if let Some(n) = n {
        lemma_decimal_digits_value(n as nat);
        assert(dotted(Some(n)).skip(1) =~= decimal_digits(n as nat));
    }
}

/// The text of a qualifier other than a release is a qualifier of the
/// grammar.
proof fn lemma_qualifier_text_is_tail(pre: Option<VersionState>)
    requires
        pre != Some(VersionState::Release),
    ensures
        is_tail(qualifier_text(pre), pre),
{
    reveal_strlit("alpha");
    reveal_strlit("beta");
    reveal_strlit("rc");
    match pre {
        Some(VersionState::Alpha(n)) => {
            lemma_decimal_digits_value(n as nat);
            assert(qualifier_text(pre).skip(5) =~= decimal_digits(n as nat));
        },
        Some(VersionState::Beta(n)) => {
            lemma_decimal_digits_value(n as nat);
            assert(qualifier_text(pre).skip(4) =~= decimal_digits(n as nat));
        },
        Some(VersionState::ReleaseCandidate(n)) => {
            lemma_decimal_digits_value(n as nat);
            assert(qualifier_text(pre).skip(2) =~= decimal_digits(n as nat));
        },
        _ => {},
    }
}

/// The text of a version is that version as the grammar writes it.
///
/// This holds of every version in which a patch number comes with a minor
/// number and whose qualifier, if it has one, is not a release: a release
/// is written as nothing, which the grammar reads as no qualifier.
pub proof fn lemma_text_spells(v: Version)
    requires
        v.well_formed(),
        v.pre != Some(VersionState::Release),
    ensures
        spells(v.text(), v),
{
    let major = decimal_digits(v.major as nat);
    let minor = dotted(v.minor);
    let patch = dotted(v.patch);
    let tail = qualifier_text(v.pre);
    let s = v.text();
    let b = major.len() as int;
    let c = b + minor.len();
    let d = c + patch.len();
    lemma_decimal_digits_value(v.major as nat);
    lemma_dotted_is_optional_number(v.minor);
    lemma_dotted_is_optional_number(v.patch);
    lemma_qualifier_text_is_tail(v.pre);
    assert(s =~= major + minor + patch + tail);
    assert(s.subrange(0, b) =~= major);
    assert(s.subrange(b, c) =~= minor);
    assert(s.subrange(c, d) =~= patch);
    assert(s.subrange(d, s.len() as int) =~= tail);
    assert(is_number(major, v.major));
    assert(spells_at(s, v, 0, b, c, d));
}

/// Writing a version and reading the text gives the version back.
///
/// This holds of every version in which a patch number comes with a minor
/// number and whose qualifier, if it has one, is not a release: a release
/// is written as nothing, and is read back as no qualifier.
pub proof fn lemma_parse_text(v: Version)
    requires
        v.well_formed(),
        v.pre != Some(VersionState::Release),
    ensures
        parsed(v.text()) == Ok::<Version, ParseError>(v),
{
    lemma_text_spells(v);
    lemma_spelled_is_parsed(v.text(), v);
}

/// What the parser reads is a version that its text denotes again: a
/// patch number comes with a minor number, the qualifier is never a
/// release, so that the version is stable if and only if it has no
/// qualifier, and writing the version and reading the text gives the same
/// version.
pub proof fn lemma_parsed_reads_back(s: Seq<char>)
    ensures
        parsed(s) matches Ok(v) ==> {
            &&& v.well_formed()
            &&& v.pre != Some(VersionState::Release)
            &&& v.is_stable() <==> v.pre is None
            &&& parsed(v.text()) == parsed(s)
        },
{
    if let Ok(v) = parsed(s) {
        lemma_parsed_well_formed(s);
        lemma_parse_text(v);
    }
}

/// Versions that are written alike are equal, where each has a patch
/// number only with a minor number and no release as qualifier: the text
/// shows which fields a version has.
pub proof fn lemma_text_injective(v: Version, w: Version)
    requires
        v.well_formed(),
        w.well_formed(),
        v.pre != Some(VersionState::Release),
        w.pre != Some(VersionState::Release),
        v.text() == w.text(),
    ensures
        v == w,
{
    lemma_parse_text(v);
    lemma_parse_text(w);
}

} // verus!
