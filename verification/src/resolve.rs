//! Picking versions from a list of releases: the latest release, the
//! release that a partial version asks for, and the updates that exist for
//! an installed version.
//!
//! The lists are searched from their end. In a list that is sorted from
//! oldest to latest the version found is then the latest that qualifies.

use crate::sorting::{
    lemma_sort_of_permutes, lemma_sort_of_sorted, sort_of, sort_versions, sorted,
};
use crate::version::{lemma_order_total, Version, VersionPart, VersionState};
use vstd::prelude::*;

verus! {

/// Why no version was picked.
#[derive(Debug, PartialEq, Eq)]
pub enum ResolveError {
    /// No version of the list qualifies.
    NotFound,
    /// More than one version qualifies where exactly one is asked for. The
    /// versions that qualify are given in the order of the list.
    Ambiguous(Vec<Version>),
}

/// The last version of `s` that satisfies `p`.
pub open spec fn last_where(s: Seq<Version>, p: spec_fn(Version) -> bool) -> Option<Version>
    decreases s.len(),
{
    if s.len() == 0 {
        None
    } else if p(s.last()) {
        Some(s.last())
    } else {
        last_where(s.drop_last(), p)
    }
}

/// The version at `i` satisfies `p` and none behind it does, so it is the
/// last that satisfies `p`.
pub proof fn lemma_last_where_at(s: Seq<Version>, p: spec_fn(Version) -> bool, i: int)
    requires
        0 <= i < s.len(),
        p(s[i]),
        forall|j: int| i < j < s.len() ==> !p(#[trigger] s[j]),
    ensures
        last_where(s, p) == Some(s[i]),
    decreases s.len(),
{
    if i < s.len() - 1 {
        assert(!p(s[s.len() - 1]));
        lemma_last_where_at(s.drop_last(), p, i);
    }
}

/// No version satisfies `p`, so there is no last one that does.
pub proof fn lemma_last_where_none(s: Seq<Version>, p: spec_fn(Version) -> bool)
    requires
        forall|j: int| 0 <= j < s.len() ==> !p(#[trigger] s[j]),
    ensures
        last_where(s, p) is None,
    decreases s.len(),
{
    if s.len() > 0 {
        assert(!p(s[s.len() - 1]));
        lemma_last_where_none(s.drop_last(), p);
    }
}

/// What `last_where` finds is a version of the list that satisfies the
/// predicate and has no such version behind it; it finds one whenever the
/// list holds one. In a sorted list no version that satisfies the predicate
/// comes after the one found: it is the latest.
pub proof fn lemma_last_where_latest(s: Seq<Version>, p: spec_fn(Version) -> bool)
    ensures
        match last_where(s, p) {
            Some(v) => exists|i: int|
                0 <= i < s.len() && #[trigger] s[i] == v && p(v) && (forall|j: int|
                    i < j < s.len() ==> !p(#[trigger] s[j])),
            None => forall|j: int| 0 <= j < s.len() ==> !p(#[trigger] s[j]),
        },
        sorted(s) ==> forall|j: int|
            0 <= j < s.len() && p(#[trigger] s[j]) ==> last_where(s, p) is Some && s[j].at_most(
                last_where(s, p).unwrap(),
            ),
    decreases s.len(),
{
    if s.len() > 0 {
        let t = s.drop_last();
        lemma_last_where_latest(t, p);
        if p(s.last()) {
            assert(s[s.len() - 1] == s.last());
            if sorted(s) {
                assert forall|j: int| 0 <= j < s.len() && p(#[trigger] s[j]) implies s[j].at_most(
                    s.last(),
                ) by {
                    if j < s.len() - 1 {
                        assert(s[j].at_most(s[s.len() - 1]));
                    } else {
                        lemma_order_total(s[j], s[j]);
                    }
                }
            }
        } else {
            match last_where(t, p) {
                Some(v) => {
                    let i = choose|i: int|
                        0 <= i < t.len() && #[trigger] t[i] == v && p(v) && (forall|j: int|
                            i < j < t.len() ==> !p(#[trigger] t[j]));
                    assert(s[i] == v);
                    assert forall|j: int| i < j < s.len() implies !p(#[trigger] s[j]) by {
                        if j < t.len() {
                            assert(!p(t[j]));
                        }
                    }
                },
                None => {
                    assert forall|j: int| 0 <= j < s.len() implies !p(#[trigger] s[j]) by {
                        if j < t.len() {
                            assert(!p(t[j]));
                        }
                    }
                },
            }
            if sorted(s) {
                assert(sorted(t)) by {
                    assert forall|i: int, j: int| 0 <= i < j < t.len() implies t[i].at_most(
                        t[j],
                    ) by {
                        assert(s[i].at_most(s[j]));
                    }
                }
                assert forall|j: int| 0 <= j < s.len() && p(#[trigger] s[j]) implies last_where(
                    s,
                    p,
                ) is Some && s[j].at_most(last_where(s, p).unwrap()) by {
                    assert(j < t.len());
                    assert(p(t[j]));
                }
            }
        }
    }
}

/// Searching the sorted list of some versions finds the latest of them
/// that satisfies the predicate: a version of the given ones that satisfies
/// it, with no such version after it in the order. It finds nothing only
/// if none of the given versions satisfies the predicate.
pub proof fn lemma_last_where_sorted(tags: Seq<Version>, p: spec_fn(Version) -> bool)
    ensures
        match last_where(sort_of(tags), p) {
            Some(v) => tags.contains(v) && p(v) && forall|w: Version|
                tags.contains(w) && p(w) ==> w.at_most(v),
            None => forall|w: Version| tags.contains(w) ==> !p(w),
        },
{
    let s = sort_of(tags);
    lemma_sort_of_sorted(tags);
    lemma_sort_of_permutes(tags);
    lemma_last_where_latest(s, p);
    assert forall|w: Version| tags.contains(w) <==> s.contains(w) by {
        vstd::seq_lib::to_multiset_contains(tags, w);
        vstd::seq_lib::to_multiset_contains(s, w);
    }
    match last_where(s, p) {
        Some(v) => {
            let i = choose|i: int|
                0 <= i < s.len() && #[trigger] s[i] == v && p(v) && (forall|j: int|
                    i < j < s.len() ==> !p(#[trigger] s[j]));
            assert(s.contains(v));
            assert forall|w: Version| tags.contains(w) && p(w) implies w.at_most(v) by {
                assert(s.contains(w));
                let j = choose|j: int| 0 <= j < s.len() && s[j] == w;
                assert(p(s[j]));
            }
        },
        None => {
            assert forall|w: Version| tags.contains(w) implies !p(w) by {
                assert(s.contains(w));
                let j = choose|j: int| 0 <= j < s.len() && s[j] == w;
                assert(!p(s[j]));
            }
        },
    }
}

/// Whether a version counts as a release to pick when the latest is asked
/// for: every version where unstable ones are included, else the stable
/// ones.
pub open spec fn eligible(include_unstable: bool) -> spec_fn(Version) -> bool {
    |v: Version| include_unstable || v.is_stable()
}

/// Whether a version answers the partial version `spec`: `spec` covers it,
/// and it is stable unless `spec` itself names a pre-release.
pub open spec fn answers(spec: Version) -> spec_fn(Version) -> bool {
    |v: Version| (v.is_stable() || !spec.is_stable()) && spec.covers(&v)
}

/// Whether `spec` covers a version, stable or not.
pub open spec fn covered_by(spec: Version) -> spec_fn(Version) -> bool {
    |v: Version| spec.covers(&v)
}

/// `a` is above `b`, where a missing number is below every number.
pub open spec fn number_above(a: Option<usize>, b: Option<usize>) -> bool {
    match (a, b) {
        (Some(x), Some(y)) => x > y,
        (Some(_), None) => true,
        (None, _) => false,
    }
}

/// `a` is above `b`, where a missing qualifier is below every qualifier.
pub open spec fn state_above(a: Option<VersionState>, b: Option<VersionState>) -> bool {
    match (a, b) {
        (Some(x), Some(y)) => y.precedes(x),
        (Some(_), None) => true,
        (None, _) => false,
    }
}

/// Whether a version is a newer minor release than `current`: of the same
/// major number, stable if and only if `current` is, and with a higher
/// minor number, both minor numbers read as zero where missing.
pub open spec fn newer_minor(current: Version) -> spec_fn(Version) -> bool {
    |v: Version|
        current.is_stable() == v.is_stable() && v.minor_or_zero() > current.minor_or_zero()
            && current.strip_after(VersionPart::Major).covers(&v)
}

/// Whether a version is a newer patch release than `current`: covered by
/// `current` cut after its minor number, and with a patch number above
/// that of `current`. A version without a patch number is below one with
/// the patch number zero here. Stable and unstable versions both qualify.
pub open spec fn newer_patch(current: Version) -> spec_fn(Version) -> bool {
    |v: Version|
        number_above(v.patch, current.patch) && current.strip_after(VersionPart::Minor).covers(&v)
}

/// Whether a version is a newer pre-release than `current`: covered by
/// `current` cut after its patch number, and with a qualifier above that
/// of `current`. A version without a qualifier does not qualify.
pub open spec fn newer_pre(current: Version) -> spec_fn(Version) -> bool {
    |v: Version|
        state_above(v.pre, current.pre) && current.strip_after(VersionPart::Patch).covers(&v)
}

/// An update is newer than the version that it updates: a newer minor
/// release and a newer pre-release come after `current` in the order, and
/// so does a newer patch release of a `current` that has a patch number.
/// A newer minor release is as stable as `current`, and shares its major
/// number as every update does.
pub proof fn lemma_updates_are_newer(current: Version, v: Version)
    ensures
        newer_minor(current)(v) ==> current.precedes(v) && v.major == current.major
            && v.is_stable() == current.is_stable(),
        newer_patch(current)(v) ==> v.major == current.major && v.patch is Some,
        newer_patch(current)(v) && current.patch is Some ==> current.precedes(v),
        newer_pre(current)(v) ==> v.major == current.major && v.pre is Some,
        newer_pre(current)(v) && !current.is_stable() ==> current.precedes(v),
{
}

/// The versions that a listing of the upstream tags gave, sorted from
/// oldest to latest. Versions of the same position in the order keep the
/// order of the listing.
pub fn get_upstream_versions(tags: Vec<Version>) -> (versions: Vec<Version>)
    ensures
        versions@ == sort_of(tags@),
{
    sort_versions(tags)
}

/// Returns the last stable version of `versions`, or the last version of
/// all if `include_unstable` is true. In a sorted list that is the latest.
///
/// # Errors
/// `NotFound` if the list holds no such version.
pub fn get_latest_upstream_version(versions: &[Version], include_unstable: bool) -> (r: Result<
    Version,
    ResolveError,
>)
    ensures
        match last_where(versions@, eligible(include_unstable)) {
            Some(v) => r == Ok::<Version, ResolveError>(v),
            None => r == Err::<Version, ResolveError>(ResolveError::NotFound),
        },
{
    let mut i: usize = versions.len();
    while i > 0
        invariant
            i <= versions.len(),
            forall|j: int|
                i <= j < versions.len() ==> !eligible(include_unstable)(#[trigger] versions@[j]),
        decreases i,
    {
        i -= 1;
        let v = versions[i];
        if include_unstable || v.is_stable() {
            proof {
                lemma_last_where_at(versions@, eligible(include_unstable), i as int);
            }
            return Ok(v);
        }
    }
    proof {
        lemma_last_where_none(versions@, eligible(include_unstable));
    }
    Err(ResolveError::NotFound)
}

/// Returns the last version of `versions` that the partial version `s`
/// covers. If `s` has a pre-release part, as `1.20rc1` has, pre-releases
/// qualify; otherwise only stable versions do. In a sorted list the
/// version found is the latest that qualifies.
///
/// # Errors
/// `NotFound` if no version of the list qualifies.
pub fn find_upstream_version(versions: &[Version], s: &Version) -> (r: Result<
    Version,
    ResolveError,
>)
    ensures
        match last_where(versions@, answers(*s)) {
            Some(v) => r == Ok::<Version, ResolveError>(v),
            None => r == Err::<Version, ResolveError>(ResolveError::NotFound),
        },
{
    let mut i: usize = versions.len();
    while i > 0
        invariant
            i <= versions.len(),
            forall|j: int| i <= j < versions.len() ==> !answers(*s)(#[trigger] versions@[j]),
        decreases i,
    {
        i -= 1;
        let v = versions[i];
        if (v.is_stable() || !s.is_stable()) && s.covers(&v) {
            proof {
                lemma_last_where_at(versions@, answers(*s), i as int);
            }
            return Ok(v);
        }
    }
    proof {
        lemma_last_where_none(versions@, answers(*s));
    }
    Err(ResolveError::NotFound)
}

/// Returns the one version of `installed` that the partial version `s`
/// covers, stable or not.
///
/// # Errors
/// `NotFound` if `s` covers no version of the list; `Ambiguous` with all
/// the versions that it covers, in the order of the list, if it covers
/// more than one.
pub fn find_installed_version(installed: &[Version], s: &Version) -> (r: Result<
    Version,
    ResolveError,
>)
    ensures
        ({
            let found = installed@.filter(covered_by(*s));
            match r {
                Ok(v) => found.len() == 1 && v == found[0],
                Err(ResolveError::NotFound) => found.len() == 0,
                Err(ResolveError::Ambiguous(all)) => found.len() > 1 && all@ == found,
            }
        }),
{
    let mut found: Vec<Version> = Vec::new();
    let mut i: usize = 0;
    while i < installed.len()
        invariant
            i <= installed.len(),
            found@ == installed@.take(i as int).filter(covered_by(*s)),
        decreases installed.len() - i,
    {
        let v = installed[i];
        proof {
            installed@.take(i as int).lemma_filter_push(v, covered_by(*s));
            assert(installed@.take(i as int).push(v) =~= installed@.take(i + 1));
        }
        if s.covers(&v) {
            found.push(v);
        }
        i += 1;
    }
    assert(installed@.take(installed.len() as int) =~= installed@);
    if found.len() == 0 {
        Err(ResolveError::NotFound)
    } else if found.len() > 1 {
        Err(ResolveError::Ambiguous(found))
    } else {
        Ok(found[0])
    }
}

/// Returns the last version of `versions` that is a newer minor release
/// than `current`: of the same major number and the same stability, with a
/// higher minor number.
pub fn get_new_minor<'a>(versions: &'a [Version], current: &Version) -> (r: Option<&'a Version>)
    ensures
        match r {
            Some(v) => last_where(versions@, newer_minor(*current)) == Some(*v),
            None => last_where(versions@, newer_minor(*current)) is None,
        },
{
    let base = current.strip_after(VersionPart::Major);
    let mut i: usize = versions.len();
    while i > 0
        invariant
            i <= versions.len(),
            base == current.strip_after(VersionPart::Major),
            forall|j: int| i <= j < versions.len() ==> !newer_minor(*current)(#[trigger] versions@[j]),
        decreases i,
    {
        i -= 1;
        let v = &versions[i];
        if current.is_stable() == v.is_stable() && v.minor.unwrap_or(0) > current.minor.unwrap_or(0)
            && base.covers(v) {
            proof {
                lemma_last_where_at(versions@, newer_minor(*current), i as int);
            }
            return Some(v);
        }
    }
    proof {
        lemma_last_where_none(versions@, newer_minor(*current));
    }
    None
}

/// Returns the last version of `versions` that is a newer patch release
/// than `current`: of the same major and minor number, with a higher patch
/// number. The stability of the versions plays no part.
pub fn get_new_patch<'a>(versions: &'a [Version], current: &Version) -> (r: Option<&'a Version>)
    ensures
        match r {
            Some(v) => last_where(versions@, newer_patch(*current)) == Some(*v),
            None => last_where(versions@, newer_patch(*current)) is None,
        },
{
    let base = current.strip_after(VersionPart::Minor);
    let mut i: usize = versions.len();
    while i > 0
        invariant
            i <= versions.len(),
            base == current.strip_after(VersionPart::Minor),
            forall|j: int| i <= j < versions.len() ==> !newer_patch(*current)(#[trigger] versions@[j]),
        decreases i,
    {
        i -= 1;
        let v = &versions[i];
        if is_number_above(v.patch, current.patch) && base.covers(v) {
            proof {
                lemma_last_where_at(versions@, newer_patch(*current), i as int);
            }
            return Some(v);
        }
    }
    proof {
        lemma_last_where_none(versions@, newer_patch(*current));
    }
    None
}

/// Returns the last version of `versions` that is a newer pre-release than
/// `current`: of the same major, minor and patch number, with a higher
/// qualifier. A stable `current` has no newer pre-release.
pub fn get_new_pre<'a>(versions: &'a [Version], current: &Version) -> (r: Option<&'a Version>)
    ensures
        current.is_stable() ==> r is None,
        !current.is_stable() ==> match r {
            Some(v) => last_where(versions@, newer_pre(*current)) == Some(*v),
            None => last_where(versions@, newer_pre(*current)) is None,
        },
{
    if current.is_stable() {
        return None;
    }
    let base = current.strip_after(VersionPart::Patch);
    let mut i: usize = versions.len();
    while i > 0
        invariant
            i <= versions.len(),
            !current.is_stable(),
            base == current.strip_after(VersionPart::Patch),
            forall|j: int| i <= j < versions.len() ==> !newer_pre(*current)(#[trigger] versions@[j]),
        decreases i,
    {
        i -= 1;
        let v = &versions[i];
        if is_state_above(v.pre, current.pre) && base.covers(v) {
            proof {
                lemma_last_where_at(versions@, newer_pre(*current), i as int);
            }
            return Some(v);
        }
    }
    proof {
        lemma_last_where_none(versions@, newer_pre(*current));
    }
    None
}

fn is_number_above(a: Option<usize>, b: Option<usize>) -> (r: bool)
    ensures
        r == number_above(a, b),
{
    match (a, b) {
        (Some(x), Some(y)) => x > y,
        (Some(_), None) => true,
        (None, _) => false,
    }
}

fn is_state_above(a: Option<VersionState>, b: Option<VersionState>) -> (r: bool)
    ensures
        r == state_above(a, b),
{
    match (a, b) {
        (Some(x), Some(y)) => y < x,
        (Some(_), None) => true,
        (None, _) => false,
    }
}

} // verus!
