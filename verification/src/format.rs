//! How versions are written as text.

use crate::version::{Version, VersionState};
use vstd::prelude::*;

verus! {

/// The character of a decimal digit.
pub open spec fn digit_char(d: nat) -> char {
    (d + '0' as nat) as char
}

/// The decimal digits of `n`, without leading zeros.
pub open spec fn decimal_digits(n: nat) -> Seq<char>
    decreases n,
{
    if n < 10 {
        seq![digit_char(n)]
    } else {
        decimal_digits(n / 10).push(digit_char(n % 10))
    }
}

/// A dot and the digits of the number, or nothing where there is no
/// number.
pub open spec fn dotted(n: Option<usize>) -> Seq<char> {
    match n {
        Some(n) => seq!['.'] + decimal_digits(n as nat),
        None => Seq::empty(),
    }
}

impl VersionState {
    /// The tag and number of the qualifier; a release has no text.
    pub open spec fn text(self) -> Seq<char> {
        match self {
            VersionState::Alpha(n) => "alpha"@ + decimal_digits(n as nat),
            VersionState::Beta(n) => "beta"@ + decimal_digits(n as nat),
            VersionState::ReleaseCandidate(n) => "rc"@ + decimal_digits(n as nat),
            VersionState::Release => Seq::empty(),
        }
    }

    /// Writes the qualifier as its lowercase tag followed by its number:
    /// `alpha1`, `beta2`, `rc3`. A release is written as the empty string.
    pub fn to_string(&self) -> (s: String)
        ensures
            s@ == self.text(),
    {
        let mut s = String::new();
        match self {
            VersionState::Alpha(n) => {
                s.append("alpha");
                push_decimal(&mut s, *n);
            },
            VersionState::Beta(n) => {
                s.append("beta");
                push_decimal(&mut s, *n);
            },
            VersionState::ReleaseCandidate(n) => {
                s.append("rc");
                push_decimal(&mut s, *n);
            },
            VersionState::Release => {},
        }
        s
    }
}

impl Version {
    /// The fields that the version has, in dotted form, followed by the
    /// qualifier.
    pub open spec fn text(self) -> Seq<char> {
        decimal_digits(self.major as nat) + dotted(self.minor) + dotted(self.patch) + match self.pre {
            Some(state) => state.text(),
            None => Seq::empty(),
        }
    }

    /// Writes the version with the fields that it has and no others: a
    /// version without a minor number is written without one, not with a
    /// zero.
    pub fn to_string(&self) -> (s: String)
        ensures
            s@ == self.text(),
    {
        let mut s = String::new();
        push_decimal(&mut s, self.major);
        if let Some(minor) = self.minor {
            s.push('.');
            push_decimal(&mut s, minor);
        }
        if let Some(patch) = self.patch {
            s.push('.');
            push_decimal(&mut s, patch);
        }
        if let Some(pre) = self.pre {
            let tail = pre.to_string();
            s.append(tail.as_str());
        }
        s
    }
}

/// Appends the decimal digits of `n` to `out`.
pub fn push_decimal(out: &mut String, n: usize)
    ensures
        final(out)@ == old(out)@ + decimal_digits(n as nat),
    decreases n,
{
    if n >= 10 {
        push_decimal(out, n / 10);
    }
    let digit: u8 = (n % 10) as u8;
    out.push((48u8 + digit) as char);
}

} // verus!
