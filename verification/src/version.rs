//! The version data model: the parts of a release identifier, which
//! versions are stable, the order of versions and which versions a partial
//! version covers.

use std::cmp::Ordering;
use vstd::prelude::*;
use vstd::std_specs::cmp::PartialOrdSpecImpl;

verus! {

/// The pre-release qualifier of a version.
///
/// Qualifiers are ordered by kind first, `Alpha < Beta < ReleaseCandidate <
/// Release`, and by their number within one kind.
#[derive(Debug, Clone, Copy, PartialEq, Eq, Structural)]
pub enum VersionState {
    Alpha(usize),
    Beta(usize),
    ReleaseCandidate(usize),
    Release,
}

impl VersionState {
    /// The position of the qualifier's kind in the order of kinds.
    pub open spec fn kind_rank(self) -> int {
        match self {
            VersionState::Alpha(_) => 0,
            VersionState::Beta(_) => 1,
            VersionState::ReleaseCandidate(_) => 2,
            VersionState::Release => 3,
        }
    }

    /// The number that follows the tag; a release carries none and counts
    /// as zero.
    pub open spec fn ordinal(self) -> usize {
        match self {
            VersionState::Alpha(n) => n,
            VersionState::Beta(n) => n,
            VersionState::ReleaseCandidate(n) => n,
            VersionState::Release => 0,
        }
    }

    /// `self` comes strictly before `other`.
    pub open spec fn precedes(self, other: VersionState) -> bool {
        self.kind_rank() < other.kind_rank() || (self.kind_rank() == other.kind_rank()
            && self.ordinal() < other.ordinal())
    }

    /// How `self` is ordered relative to `other`.
    pub open spec fn ordering(self, other: VersionState) -> Ordering {
        if self.precedes(other) {
            Ordering::Less
        } else if other.precedes(self) {
            Ordering::Greater
        } else {
            Ordering::Equal
        }
    }

    /// Compares two qualifiers.
    pub fn compare(&self, other: &VersionState) -> (o: Ordering)
        ensures
            o == self.ordering(*other),
    {
        let (rank, number) = self.rank();
        let (other_rank, other_number) = other.rank();
        if rank < other_rank {
            Ordering::Less
        } else if rank > other_rank {
            Ordering::Greater
        } else if number < other_number {
            Ordering::Less
        } else if number > other_number {
            Ordering::Greater
        } else {
            Ordering::Equal
        }
    }

    fn rank(&self) -> (r: (u8, usize))
        ensures
            r.0 == self.kind_rank(),
            r.1 == self.ordinal(),
    {
        match self {
            VersionState::Alpha(n) => (0, *n),
            VersionState::Beta(n) => (1, *n),
            VersionState::ReleaseCandidate(n) => (2, *n),
            VersionState::Release => (3, 0),
        }
    }
}

impl Default for VersionState {
    fn default() -> (s: Self)
        ensures
            s == VersionState::Release,
    {
        VersionState::Release
    }
}

impl PartialOrdSpecImpl for VersionState {
    open spec fn obeys_partial_cmp_spec() -> bool {
        true
    }

    open spec fn partial_cmp_spec(&self, other: &VersionState) -> Option<Ordering> {
        Some(self.ordering(*other))
    }
}

impl PartialOrd for VersionState {
    fn partial_cmp(&self, other: &VersionState) -> (o: Option<Ordering>) {
        Some(self.compare(other))
    }
}

/// Names the part of a version after which `Version::strip_after` cuts.
#[derive(Debug, Clone, Copy, PartialEq, Eq, Structural)]
pub enum VersionPart {
    Major,
    Minor,
    Patch,
}

/// A release identifier of the form `major(.minor(.patch))(alphaN|betaN|rcN)`.
///
/// Examples are `1`, `1.2`, `1.2.3`, `1.3beta1` and `1.4rc2`.
///
/// Two versions are equal when all four fields are equal, so `1` and `1.0`
/// are different values. The order of versions reads a missing minor or
/// patch number as zero and a missing qualifier as a release, so `1` and
/// `1.0` occupy the same position in it.
#[derive(Debug, Clone, Copy, PartialEq, Eq, Structural)]
pub struct Version {
    pub major: usize,
    pub minor: Option<usize>,
    pub patch: Option<usize>,
    pub pre: Option<VersionState>,
}

impl Version {
    /// The minor number, read as zero where it is missing.
    pub open spec fn minor_or_zero(self) -> usize {
        match self.minor {
            Some(n) => n,
            None => 0,
        }
    }

    /// The patch number, read as zero where it is missing.
    pub open spec fn patch_or_zero(self) -> usize {
        match self.patch {
            Some(n) => n,
            None => 0,
        }
    }

    /// The qualifier, read as a release where it is missing.
    pub open spec fn pre_or_release(self) -> VersionState {
        match self.pre {
            Some(s) => s,
            None => VersionState::Release,
        }
    }

    /// A patch number is only present together with a minor number. Every
    /// version that the parser produces has this shape.
    pub open spec fn well_formed(self) -> bool {
        self.patch is Some ==> self.minor is Some
    }

    /// The version is a stable release.
    pub open spec fn spec_is_stable(&self) -> bool {
        self.pre_or_release() == VersionState::Release
    }

    /// Returns true if the version defines a stable release, that is one
    /// without an `alpha`, `beta` or `rc` part.
    #[verifier::when_used_as_spec(spec_is_stable)]
    pub fn is_stable(&self) -> (r: bool)
        ensures
            r == self.spec_is_stable(),
    {
        match &self.pre {
            None => true,
            Some(x) => matches!(x, VersionState::Release),
        }
    }

    /// `self`, read as a pattern, matches `other`: the major numbers agree,
    /// and each further field that `self` has equals the field of `other`,
    /// where `other` is read with its missing fields filled in.
    pub open spec fn spec_covers(&self, other: &Version) -> bool {
        &&& self.major == other.major
        &&& (self.minor matches Some(x) ==> x == other.minor_or_zero())
        &&& (self.patch matches Some(x) ==> x == other.patch_or_zero())
        &&& (self.pre matches Some(x) ==> x == other.pre_or_release())
    }

    /// Returns true if the version covers the given `other` version:
    /// `1` covers `1.2.1`, `1.3` covers `1.3.7`, `1.2.3` covers `1.2.3rc1`,
    /// and `1.3` does not cover `1.2.1`.
    #[verifier::when_used_as_spec(spec_covers)]
    pub fn covers(&self, other: &Version) -> (r: bool)
        ensures
            r == self.spec_covers(other),
    {
        if self.major != other.major {
            return false;
        }
        match self.minor {
            Some(x) if x != other.minor.unwrap_or(0) => return false,
            _ => {},
        };
        match self.patch {
            Some(x) if x != other.patch.unwrap_or(0) => return false,
            _ => {},
        };
        match self.pre {
            Some(x) if x != other.pre.unwrap_or(VersionState::Release) => return false,
            _ => {},
        };
        true
    }

    /// The version cut after the given part: the parts that follow it are
    /// dropped.
    pub open spec fn spec_strip_after(&self, part: VersionPart) -> Version {
        match part {
            VersionPart::Major => Version { major: self.major, minor: None, patch: None, pre: None },
            VersionPart::Minor => Version {
                major: self.major,
                minor: self.minor,
                patch: None,
                pre: None,
            },
            VersionPart::Patch => Version {
                major: self.major,
                minor: self.minor,
                patch: self.patch,
                pre: None,
            },
        }
    }

    /// Returns the version without the parts that follow `part`. The result
    /// covers every version that agrees with `self` up to that part.
    #[verifier::when_used_as_spec(spec_strip_after)]
    pub fn strip_after(&self, part: VersionPart) -> (v: Version)
        ensures
            v == self.spec_strip_after(part),
    {
        match part {
            VersionPart::Major => Version { major: self.major, minor: None, patch: None, pre: None },
            VersionPart::Minor => Version {
                major: self.major,
                minor: self.minor,
                patch: None,
                pre: None,
            },
            VersionPart::Patch => Version {
                major: self.major,
                minor: self.minor,
                patch: self.patch,
                pre: None,
            },
        }
    }

    /// `self` comes strictly before `other`: the versions are compared by
    /// major number, then by minor and patch number, each read as zero where
    /// missing, then by qualifier, read as a release where missing.
    pub open spec fn precedes(self, other: Version) -> bool {
        ||| self.major < other.major
        ||| self.major == other.major && self.minor_or_zero() < other.minor_or_zero()
        ||| self.major == other.major && self.minor_or_zero() == other.minor_or_zero()
            && self.patch_or_zero() < other.patch_or_zero()
        ||| self.major == other.major && self.minor_or_zero() == other.minor_or_zero()
            && self.patch_or_zero() == other.patch_or_zero() && self.pre_or_release().precedes(
            other.pre_or_release(),
        )
    }

    /// `self` and `other` occupy the same position in the order: they agree
    /// once their missing fields are filled in.
    pub open spec fn same_position(self, other: Version) -> bool {
        &&& self.major == other.major
        &&& self.minor_or_zero() == other.minor_or_zero()
        &&& self.patch_or_zero() == other.patch_or_zero()
        &&& self.pre_or_release() == other.pre_or_release()
    }

    /// `self` comes before `other` or occupies the same position.
    pub open spec fn at_most(self, other: Version) -> bool {
        !other.precedes(self)
    }

    /// How `self` is ordered relative to `other`.
    pub open spec fn ordering(self, other: Version) -> Ordering {
        if self.precedes(other) {
            Ordering::Less
        } else if other.precedes(self) {
            Ordering::Greater
        } else {
            Ordering::Equal
        }
    }

    /// Compares two versions in the order of versions. Versions that differ
    /// only in missing fields, such as `1` and `1.0`, compare as equal.
    pub fn cmp(&self, other: &Version) -> (o: Ordering)
        ensures
            o == self.ordering(*other),
    {
        if self.major < other.major {
            return Ordering::Less;
        }
        if self.major > other.major {
            return Ordering::Greater;
        }
        let minor = self.minor.unwrap_or(0);
        let other_minor = other.minor.unwrap_or(0);
        if minor < other_minor {
            return Ordering::Less;
        }
        if minor > other_minor {
            return Ordering::Greater;
        }
        let patch = self.patch.unwrap_or(0);
        let other_patch = other.patch.unwrap_or(0);
        if patch < other_patch {
            return Ordering::Less;
        }
        if patch > other_patch {
            return Ordering::Greater;
        }
        self.pre.unwrap_or(VersionState::Release).compare(&other.pre.unwrap_or(VersionState::Release))
    }
}

impl Default for Version {
    fn default() -> (v: Self)
        ensures
            v == (Version { major: 0, minor: None, patch: None, pre: None }),
    {
        Version { major: 0, minor: None, patch: None, pre: None }
    }
}

impl PartialOrdSpecImpl for Version {
    open spec fn obeys_partial_cmp_spec() -> bool {
        true
    }

    open spec fn partial_cmp_spec(&self, other: &Version) -> Option<Ordering> {
        Some(self.ordering(*other))
    }
}

impl PartialOrd for Version {
    fn partial_cmp(&self, other: &Version) -> (o: Option<Ordering>) {
        Some(self.cmp(other))
    }
}

/// The order of qualifiers is a strict total order: of two qualifiers
/// exactly one comes before the other unless they are equal, and the order
/// is transitive. Every alpha comes before every beta, every beta before
/// every release candidate, and every release candidate before the release;
/// within one kind the numbers decide.
pub proof fn lemma_state_order(a: VersionState, b: VersionState, c: VersionState)
    ensures
        a.precedes(b) || b.precedes(a) || a == b,
        !(a.precedes(b) && b.precedes(a)),
        !a.precedes(a),
        a.precedes(b) && b.precedes(c) ==> a.precedes(c),
        a.ordering(b) == Ordering::Equal <==> a == b,
        forall|n: usize, m: usize| #[trigger]
            VersionState::Alpha(n).precedes(VersionState::Beta(m)),
        forall|n: usize, m: usize| #[trigger]
            VersionState::Beta(n).precedes(VersionState::ReleaseCandidate(m)),
        forall|n: usize| #[trigger]
            VersionState::ReleaseCandidate(n).precedes(VersionState::Release),
        forall|n: usize, m: usize|
            n < m <==> #[trigger] VersionState::Alpha(n).precedes(VersionState::Alpha(m)),
        forall|n: usize, m: usize|
            n < m <==> #[trigger] VersionState::Beta(n).precedes(VersionState::Beta(m)),
        forall|n: usize, m: usize|
            n < m <==> #[trigger] VersionState::ReleaseCandidate(n).precedes(
                VersionState::ReleaseCandidate(m),
            ),
{
}

/// Two versions have the same fields present.
pub open spec fn same_shape(a: Version, b: Version) -> bool {
    &&& a.minor is Some <==> b.minor is Some
    &&& a.patch is Some <==> b.patch is Some
    &&& a.pre is Some <==> b.pre is Some
}

/// The order of versions is total: of two versions, one comes before the
/// other or they occupy the same position, and exactly one of the three
/// holds. Comparing in the other direction gives the opposite answer.
pub proof fn lemma_order_total(a: Version, b: Version)
    ensures
        a.at_most(b) || b.at_most(a),
        a.precedes(b) || b.precedes(a) || a.same_position(b),
        !(a.precedes(b) && b.precedes(a)),
        !(a.precedes(b) && a.same_position(b)),
        a.ordering(b) == Ordering::Less <==> b.ordering(a) == Ordering::Greater,
        a.ordering(b) == Ordering::Equal <==> b.ordering(a) == Ordering::Equal,
        a.ordering(b) == Ordering::Equal <==> a.same_position(b),
{
}

/// The order of versions is transitive.
pub proof fn lemma_order_transitive(a: Version, b: Version, c: Version)
    ensures
        a.at_most(b) && b.at_most(c) ==> a.at_most(c),
        a.precedes(b) && b.precedes(c) ==> a.precedes(c),
        a.precedes(b) && b.at_most(c) ==> a.precedes(c),
        a.at_most(b) && b.precedes(c) ==> a.precedes(c),
        a.same_position(b) && b.same_position(c) ==> a.same_position(c),
{
}

/// The order of versions is antisymmetric on versions that have the same
/// fields present: if each of two such versions is at most the other, they
/// are equal. Versions that differ in a missing field can share a position
/// without being equal.
pub proof fn lemma_order_antisymmetric(a: Version, b: Version)
    requires
        same_shape(a, b),
        a.at_most(b),
        b.at_most(a),
    ensures
        a == b,
{
}

/// Equal versions occupy the same position in the order, and every version
/// compares as equal to itself.
pub proof fn lemma_equal_same_position(a: Version, b: Version)
    ensures
        a == b ==> a.same_position(b),
        a.ordering(a) == Ordering::Equal,
{
}

/// A stable release comes after every pre-release of the same major, minor
/// and patch number.
pub proof fn lemma_release_after_prerelease(a: Version, b: Version)
    requires
        a.major == b.major,
        a.minor_or_zero() == b.minor_or_zero(),
        a.patch_or_zero() == b.patch_or_zero(),
        a.is_stable(),
        !b.is_stable(),
    ensures
        b.precedes(a),
{
}

/// Every version covers itself.
pub proof fn lemma_covers_reflexive(v: Version)
    ensures
        v.covers(&v),
{
}

/// A version cut after a part covers the version itself, and it covers
/// exactly the versions that agree with it up to that part. Cutting keeps
/// a patch number only together with the minor number.
pub proof fn lemma_strip_after_covers(v: Version, part: VersionPart, w: Version)
    ensures
        v.strip_after(part).covers(&v),
        v.strip_after(VersionPart::Major).covers(&w) <==> w.major == v.major,
        v.strip_after(VersionPart::Minor).covers(&w) <==> w.major == v.major && (v.minor matches Some(
            m,
        ) ==> m == w.minor_or_zero()),
        v.strip_after(VersionPart::Patch).covers(&w) <==> w.major == v.major && (v.minor matches Some(
            m,
        ) ==> m == w.minor_or_zero()) && (v.patch matches Some(p) ==> p == w.patch_or_zero()),
        v.covers(&w) ==> v.strip_after(part).covers(&w),
        v.well_formed() ==> v.strip_after(part).well_formed(),
{
}

} // verus!
