//! The textual grammar of versions.
//!
//! A version is written as an optional `v` or `V`, the major number, then
//! optionally `.` and the minor number, then optionally `.` and the patch
//! number, then optionally one of the tags `alpha`, `beta` and `rc` followed
//! by a number. A patch number needs a minor number before it; a tag may
//! follow any of the three numbers. Each number is a run of decimal digits
//! that fits a `usize`.

use crate::digits::{
    all_digits, decimal_value, digit_value, is_digit, leading_digits, lemma_decimal_value_step,
    lemma_leading_digits,
};
use crate::text::chars_of;
use crate::version::{Version, VersionState};
use std::str::FromStr;
use vstd::prelude::*;

verus! {

/// Why a text is not a version: the part of it that could not be read.
#[derive(Debug, Clone, Copy, PartialEq, Eq, Structural)]
pub enum ParseError {
    /// The text does not start, after the optional `v`, with a number that
    /// fits.
    Major,
    /// The first dot is not followed by a number that fits.
    Minor,
    /// The second dot is not followed by a number that fits.
    Patch,
    /// What follows the numbers is not one of the tags `alpha`, `beta` and
    /// `rc` with a number that fits and nothing after it.
    Suffix,
}

impl ParseError {
    /// What the error says to the user.
    pub open spec fn spec_message(&self) -> &'static str {
        match self {
            ParseError::Major => "failed parsing major version",
            ParseError::Minor => "failed parsing minor version",
            ParseError::Patch => "failed parsing patch version",
            ParseError::Suffix => "failed parsing suffix",
        }
    }

    /// Returns a message that names the part of the text which could not
    /// be read.
    #[verifier::when_used_as_spec(spec_message)]
    pub fn message(&self) -> (text: &'static str)
        ensures
            text == self.spec_message(),
    {
        match self {
            ParseError::Major => "failed parsing major version",
            ParseError::Minor => "failed parsing minor version",
            ParseError::Patch => "failed parsing patch version",
            ParseError::Suffix => "failed parsing suffix",
        }
    }
}

/// The number that `s` starts with and what follows it; `None` where `s`
/// starts with no digit or the digits denote more than a `usize` holds.
pub open spec fn number_at(s: Seq<char>) -> Option<(Seq<char>, usize)> {
    let n = leading_digits(s);
    let value = decimal_value(s.take(n));
    if n == 0 || value > usize::MAX {
        None
    } else {
        Some((s.skip(n), value as usize))
    }
}

/// What follows the tag `p` at the start of `s`; `None` where `s` does not
/// start with `p`.
pub open spec fn prefix_at(p: Seq<char>, s: Seq<char>) -> Option<Seq<char>> {
    if p.is_prefix_of(s) {
        Some(s.skip(p.len() as int))
    } else {
        None
    }
}

/// The pre-release qualifier that `s` starts with and what follows it;
/// `None` where `s` starts with none of the three tags, or the tag is not
/// followed by a number.
pub open spec fn suffix_at(s: Seq<char>) -> Option<(Seq<char>, VersionState)> {
    if let Some(rest) = prefix_at("alpha"@, s) {
        match number_at(rest) {
            Some((rest, n)) => Some((rest, VersionState::Alpha(n))),
            None => None,
        }
    } else if let Some(rest) = prefix_at("beta"@, s) {
        match number_at(rest) {
            Some((rest, n)) => Some((rest, VersionState::Beta(n))),
            None => None,
        }
    } else if let Some(rest) = prefix_at("rc"@, s) {
        match number_at(rest) {
            Some((rest, n)) => Some((rest, VersionState::ReleaseCandidate(n))),
            None => None,
        }
    } else {
        None
    }
}

/// `s` without the `v` or `V` that it may start with.
pub open spec fn without_version_prefix(s: Seq<char>) -> Seq<char> {
    if s.len() > 0 && (s[0] == 'v' || s[0] == 'V') {
        s.skip(1)
    } else {
        s
    }
}

/// The version `v` completed by the qualifier that makes up all of `s`.
pub open spec fn with_suffix(v: Version, s: Seq<char>) -> Result<Version, ParseError> {
    match suffix_at(s) {
        Some((rest, state)) => if rest.len() == 0 {
            Ok(Version { pre: Some(state), ..v })
        } else {
            Err(ParseError::Suffix)
        },
        None => Err(ParseError::Suffix),
    }
}

/// The version `v`, which has a patch number, completed by the text `s`
/// that follows the patch number.
pub open spec fn after_patch(v: Version, s: Seq<char>) -> Result<Version, ParseError> {
    if s.len() == 0 {
        Ok(v)
    } else {
        with_suffix(v, s)
    }
}

/// The version `v`, which has a minor number, completed by the text `s`
/// that follows the minor number.
pub open spec fn after_minor(v: Version, s: Seq<char>) -> Result<Version, ParseError> {
    if s.len() == 0 {
        Ok(v)
    } else if s[0] != '.' {
        with_suffix(v, s)
    } else {
        match number_at(s.skip(1)) {
            Some((rest, patch)) => after_patch(Version { patch: Some(patch), ..v }, rest),
            None => Err(ParseError::Patch),
        }
    }
}

/// The version `v`, which has a major number only, completed by the text
/// `s` that follows the major number.
pub open spec fn after_major(v: Version, s: Seq<char>) -> Result<Version, ParseError> {
    if s.len() == 0 {
        Ok(v)
    } else if s[0] != '.' {
        with_suffix(v, s)
    } else {
        match number_at(s.skip(1)) {
            Some((rest, minor)) => after_minor(Version { minor: Some(minor), ..v }, rest),
            None => Err(ParseError::Minor),
        }
    }
}

/// The version that the text `s` denotes, or the part of `s` that is not
/// as the grammar asks.
pub open spec fn parsed(s: Seq<char>) -> Result<Version, ParseError> {
    match number_at(without_version_prefix(s)) {
        Some((rest, major)) => after_major(
            Version { major, minor: None, patch: None, pre: None },
            rest,
        ),
        None => Err(ParseError::Major),
    }
}

/// What is read has a patch number only together with a minor number, and
/// never a release as its qualifier.
pub proof fn lemma_parsed_well_formed(s: Seq<char>)
    ensures
        parsed(s) matches Ok(v) ==> v.well_formed() && v.pre != Some(VersionState::Release),
{
}

/// Reads the number at the start of `s`.
fn number(s: &[char]) -> (r: Option<(&[char], usize)>)
    ensures
        match number_at(s@) {
            Some((rest, n)) => r matches Some((rest_read, n_read)) && rest_read@ == rest && n_read
                == n,
            None => r is None,
        },
{
    let mut i: usize = 0;
    let mut value: usize = 0;
    let mut fits = true;
    while i < s.len() && s[i] >= '0' && s[i] <= '9'
        invariant
            i <= s.len(),
            all_digits(s@.take(i as int)),
            fits ==> value == decimal_value(s@.take(i as int)),
            !fits ==> decimal_value(s@.take(i as int)) > usize::MAX,
        decreases s.len() - i,
    {
        let digit: usize = (s[i] as u32 - '0' as u32) as usize;
        proof {
            lemma_decimal_value_step(s@, i as int);
            assert(digit == digit_value(s@[i as int]));
            assert forall|k: int| 0 <= k < i + 1 implies is_digit(#[trigger] s@.take(i + 1)[k]) by {
                if k < i {
                    assert(s@.take(i + 1)[k] == s@.take(i as int)[k]);
                }
            }
        }
        if fits && value <= (usize::MAX - digit) / 10 {
            value = value * 10 + digit;
        } else {
            fits = false;
        }
        i += 1;
    }
    proof {
        lemma_leading_digits(s@, i as int);
    }
    if i == 0 || !fits {
        None
    } else {
        Some((&s[i..s.len()], value))
    }
}

/// Reads the tag `p` at the start of `s`.
pub(crate) fn prefix<'a>(p: &str, s: &'a [char]) -> (r: Option<&'a [char]>)
    ensures
        match prefix_at(p@, s@) {
            Some(rest) => r matches Some(rest_read) && rest_read@ == rest,
            None => r is None,
        },
{
    let n = p.unicode_len();
    if n > s.len() {
        return None;
    }
    let mut i: usize = 0;
    while i < n
        invariant
            i <= n <= s.len(),
            n == p@.len(),
            forall|k: int| 0 <= k < i ==> p@[k] == s@[k],
        decreases n - i,
    {
        if p.get_char(i) != s[i] {
            return None;
        }
        i += 1;
    }
    assert(p@ =~= s@.subrange(0, p@.len() as int));
    Some(&s[n..s.len()])
}

/// Reads the dot that separates two numbers.
fn delim(s: &[char]) -> (r: Option<&[char]>)
    ensures
        match r {
            Some(rest) => s@.len() > 0 && s@[0] == '.' && rest@ == s@.skip(1),
            None => s@.len() == 0 || s@[0] != '.',
        },
{
    if s.len() > 0 && s[0] == '.' {
        Some(&s[1..s.len()])
    } else {
        None
    }
}

/// Reads a pre-release qualifier: a tag and its number.
fn suffix(s: &[char]) -> (r: Option<(&[char], VersionState)>)
    ensures
        match suffix_at(s@) {
            Some((rest, state)) => r matches Some((rest_read, state_read)) && rest_read@ == rest
                && state_read == state,
            None => r is None,
        },
{
    if let Some(s) = prefix("alpha", s) {
        return match number(s) {
            Some((s, v)) => Some((s, VersionState::Alpha(v))),
            None => None,
        };
    }
    if let Some(s) = prefix("beta", s) {
        return match number(s) {
            Some((s, v)) => Some((s, VersionState::Beta(v))),
            None => None,
        };
    }
    if let Some(s) = prefix("rc", s) {
        return match number(s) {
            Some((s, v)) => Some((s, VersionState::ReleaseCandidate(v))),
            None => None,
        };
    }
    None
}

/// Skips the `v` or `V` that a version may start with.
fn version_prefix(s: &[char]) -> (r: &[char])
    ensures
        r@ == without_version_prefix(s@),
{
    if s.len() > 0 && (s[0] == 'v' || s[0] == 'V') {
        &s[1..s.len()]
    } else {
        s
    }
}

/// Completes `version` by the qualifier that makes up all of `s`.
fn finish_with_suffix(version: Version, s: &[char]) -> (r: Result<Version, ParseError>)
    ensures
        r == with_suffix(version, s@),
{
    match suffix(s) {
        Some((rest, state)) => {
            if rest.len() == 0 {
                Ok(Version { pre: Some(state), ..version })
            } else {
                Err(ParseError::Suffix)
            }
        },
        None => Err(ParseError::Suffix),
    }
}

/// Parses the characters of a Go release version.
pub fn parse_chars(s: &[char]) -> (r: Result<Version, ParseError>)
    ensures
        r == parsed(s@),
        r matches Ok(v) ==> v.well_formed(),
{
    proof {
        lemma_parsed_well_formed(s@);
    }
    let s = version_prefix(s);
    let mut version = Version::default();

    let Some((s, major)) = number(s) else {
        return Err(ParseError::Major);
    };
    version.major = major;

    if s.len() == 0 {
        return Ok(version);
    }
    let Some(s) = delim(s) else {
        return finish_with_suffix(version, s);
    };

    let Some((s, minor)) = number(s) else {
        return Err(ParseError::Minor);
    };
    version.minor = Some(minor);

    if s.len() == 0 {
        return Ok(version);
    }
    let Some(s) = delim(s) else {
        return finish_with_suffix(version, s);
    };

    let Some((s, patch)) = number(s) else {
        return Err(ParseError::Patch);
    };
    version.patch = Some(patch);

    if s.len() == 0 {
        return Ok(version);
    }
    finish_with_suffix(version, s)
}

/// Takes a Go release version formatted string and parses it into a
/// [`Version`].
///
/// The result is the version that the text denotes by the grammar of this
/// module; where the text is not of that grammar, the error names the first
/// part that is not.
pub fn parse_version(s: &str) -> (r: Result<Version, ParseError>)
    ensures
        r == parsed(s@),
        r matches Ok(v) ==> v.well_formed(),
{
    let chars = chars_of(s);
    parse_chars(chars.as_slice())
}

impl FromStr for Version {
    type Err = ParseError;

    fn from_str(s: &str) -> (r: Result<Self, Self::Err>)
        ensures
            r == parsed(s@),
            r matches Ok(v) ==> v.well_formed(),
    {
        parse_version(s)
    }
}

} // verus!
