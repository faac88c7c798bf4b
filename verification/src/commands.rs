//! What the commands decide: which version to install, which installed
//! versions to remove or to list, which updates to report and what to add
//! to a profile.

use crate::parser::{parse_version, parsed, ParseError};
use crate::resolve::{
    answers, eligible, find_upstream_version, get_latest_upstream_version, get_new_minor,
    get_new_patch, get_new_pre, last_where, newer_minor, newer_patch, newer_pre, ResolveError,
};
use crate::text::{chars_of, find, lowercase, occurs_in};
use crate::version::Version;
use vstd::prelude::*;

verus! {

/// What the user asks to install.
#[derive(Debug, Clone, Copy, PartialEq, Eq, Structural)]
pub enum Wanted {
    /// The latest stable release.
    Stable,
    /// The latest release, stable or not.
    Unstable,
    /// The latest release that the partial version covers.
    Matching(Version),
    /// The latest release of the kind of the selected version: unstable
    /// ones count if a pre-release is selected.
    LikeCurrent,
}

/// What a request in lowercase asks for: `stable`, `latest` and `s` ask
/// for the latest stable release, `unstable` and `rc` for the latest
/// release of all, and any other text for the version that it denotes.
pub open spec fn wanted_by(lower: Seq<char>) -> Result<Wanted, ParseError> {
    if lower == "stable"@ || lower == "latest"@ || lower == "s"@ {
        Ok(Wanted::Stable)
    } else if lower == "unstable"@ || lower == "rc"@ {
        Ok(Wanted::Unstable)
    } else {
        match parsed(lower) {
            Ok(v) => Ok(Wanted::Matching(v)),
            Err(e) => Err(e),
        }
    }
}

/// Reads a request that is already in lowercase.
///
/// # Errors
/// The error of the parser, if the request is none of the keywords and no
/// version.
pub fn wanted_from_lowercase(lower: &str) -> (r: Result<Wanted, ParseError>)
    ensures
        r == wanted_by(lower@),
{
    let text = String::from_str(lower);
    if text == String::from_str("stable") || text == String::from_str("latest") || text
        == String::from_str("s") {
        Ok(Wanted::Stable)
    } else if text == String::from_str("unstable") || text == String::from_str("rc") {
        Ok(Wanted::Unstable)
    } else {
        match parse_version(lower) {
            Ok(v) => Ok(Wanted::Matching(v)),
            Err(e) => Err(e),
        }
    }
}

/// Reads what the user asks to install. The request is read without
/// regard to case; where there is no request, the latest release of the
/// kind of the selected version is asked for.
///
/// # Errors
/// The error of the parser, if the request is none of the keywords and no
/// version.
pub fn wanted_version(input: Option<&str>) -> (r: Result<Wanted, ParseError>)
    ensures
        r == match input {
            Some(text) => wanted_by(lowercase(text@)),
            None => Ok(Wanted::LikeCurrent),
        },
{
    match input {
        Some(text) => {
            let lower = text.to_lowercase();
            wanted_from_lowercase(lower.as_str())
        },
        None => Ok(Wanted::LikeCurrent),
    }
}

/// Which versions qualify for a request, given the selected version.
pub open spec fn qualifies(wanted: Wanted, current: Option<Version>) -> spec_fn(Version) -> bool {
    match wanted {
        Wanted::Stable => eligible(false),
        Wanted::Unstable => eligible(true),
        Wanted::Matching(v) => answers(v),
        Wanted::LikeCurrent => eligible(current matches Some(c) && !c.is_stable()),
    }
}

/// Picks the version to install from the upstream releases: the last of
/// `upstream` that qualifies for the request, which is the latest where
/// `upstream` is sorted.
///
/// # Errors
/// `NotFound` if no release qualifies.
pub fn select_version(wanted: &Wanted, current: Option<&Version>, upstream: &[Version]) -> (r:
    Result<Version, ResolveError>)
    ensures
        ({
            let current = match current {
                Some(c) => Some(*c),
                None => None,
            };
            match last_where(upstream@, qualifies(*wanted, current)) {
                Some(v) => r == Ok::<Version, ResolveError>(v),
                None => r == Err::<Version, ResolveError>(ResolveError::NotFound),
            }
        }),
{
    match wanted {
        Wanted::Stable => get_latest_upstream_version(upstream, false),
        Wanted::Unstable => get_latest_upstream_version(upstream, true),
        Wanted::Matching(v) => find_upstream_version(upstream, v),
        Wanted::LikeCurrent => {
            let include_unstable = match current {
                Some(c) => !c.is_stable(),
                None => false,
            };
            get_latest_upstream_version(upstream, include_unstable)
        },
    }
}

/// Returns true if `version` is among the installed versions, with the
/// same fields present.
pub fn is_installed(installed: &[Version], version: &Version) -> (r: bool)
    ensures
        r == installed@.contains(*version),
{
    let mut i: usize = 0;
    while i < installed.len()
        invariant
            i <= installed.len(),
            forall|j: int| 0 <= j < i ==> installed@[j] != *version,
        decreases installed.len() - i,
    {
        if installed[i] == *version {
            return true;
        }
        i += 1;
    }
    false
}

/// Returns true if `version` is the selected version.
pub fn is_current(current: Option<&Version>, version: &Version) -> (r: bool)
    ensures
        r == (current matches Some(c) && *c == *version),
{
    match current {
        Some(c) => *c == *version,
        None => false,
    }
}

/// Whether a version is other than the selected one.
pub open spec fn other_than(current: Option<Version>) -> spec_fn(Version) -> bool {
    |v: Version| current != Some(v)
}

/// Returns the installed versions that a clean-up removes: all but the
/// selected one, in the order of the list.
pub fn versions_to_clean(installed: &[Version], current: Option<&Version>) -> (r: Vec<Version>)
    ensures
        r@ == installed@.filter(
            other_than(
                match current {
                    Some(c) => Some(*c),
                    None => None,
                },
            ),
        ),
{
    let ghost keep = other_than(
        match current {
            Some(c) => Some(*c),
            None => None,
        },
    );
    let mut r: Vec<Version> = Vec::new();
    let mut i: usize = 0;
    while i < installed.len()
        invariant
            i <= installed.len(),
            keep == other_than(
                match current {
                    Some(c) => Some(*c),
                    None => None,
                },
            ),
            r@ == installed@.take(i as int).filter(keep),
        decreases installed.len() - i,
    {
        let v = installed[i];
        proof {
            installed@.take(i as int).lemma_filter_push(v, keep);
            assert(installed@.take(i as int).push(v) =~= installed@.take(i + 1));
        }
        if !is_current(current, &v) {
            r.push(v);
        }
        i += 1;
    }
    assert(installed@.take(installed.len() as int) =~= installed@);
    r
}

/// Which upstream versions a listing shows.
#[derive(Debug, Clone, Copy, PartialEq, Eq, Structural)]
pub enum FilterOptions {
    Stable,
    Unstable,
    All,
}

/// Whether a listing with the given filter shows a version.
pub open spec fn shown(filter: FilterOptions) -> spec_fn(Version) -> bool {
    |v: Version|
        match filter {
            FilterOptions::All => true,
            FilterOptions::Stable => v.is_stable(),
            FilterOptions::Unstable => !v.is_stable(),
        }
}

/// Returns the versions that a listing with the given filter shows, in
/// the order of the list.
pub fn filter_versions(versions: &[Version], filter: FilterOptions) -> (r: Vec<Version>)
    ensures
        r@ == versions@.filter(shown(filter)),
{
    let mut r: Vec<Version> = Vec::new();
    let mut i: usize = 0;
    while i < versions.len()
        invariant
            i <= versions.len(),
            r@ == versions@.take(i as int).filter(shown(filter)),
        decreases versions.len() - i,
    {
        let v = versions[i];
        proof {
            versions@.take(i as int).lemma_filter_push(v, shown(filter));
            assert(versions@.take(i as int).push(v) =~= versions@.take(i + 1));
        }
        let show = match filter {
            FilterOptions::All => true,
            FilterOptions::Stable => v.is_stable(),
            FilterOptions::Unstable => !v.is_stable(),
        };
        if show {
            r.push(v);
        }
        i += 1;
    }
    assert(versions@.take(versions.len() as int) =~= versions@);
    r
}

/// The updates that exist for an installed version.
#[derive(Debug, Clone, Copy, PartialEq, Eq, Structural)]
pub struct Updates {
    /// The latest release with a higher minor number.
    pub new_minor: Option<Version>,
    /// The latest release with a higher patch number.
    pub new_patch: Option<Version>,
    /// The latest pre-release with a higher qualifier.
    pub new_pre: Option<Version>,
}

impl Updates {
    /// There is no update of any kind.
    pub open spec fn spec_is_up_to_date(&self) -> bool {
        self.new_minor is None && self.new_patch is None && self.new_pre is None
    }

    /// Returns true if there is no update of any kind.
    #[verifier::when_used_as_spec(spec_is_up_to_date)]
    pub fn is_up_to_date(&self) -> (r: bool)
        ensures
            r == self.spec_is_up_to_date(),
    {
        self.new_pre.is_none() && self.new_minor.is_none() && self.new_patch.is_none()
    }
}

/// Looks for updates of `current` among the upstream releases. The three
/// kinds of update are found independently of each other; a stable
/// `current` has no newer pre-release.
pub fn check_updates(versions: &[Version], current: &Version) -> (updates: Updates)
    ensures
        updates.new_minor == last_where(versions@, newer_minor(*current)),
        updates.new_patch == last_where(versions@, newer_patch(*current)),
        updates.new_pre == if current.is_stable() {
            None
        } else {
            last_where(versions@, newer_pre(*current))
        },
{
    let new_minor = match get_new_minor(versions, current) {
        Some(v) => Some(*v),
        None => None,
    };
    let new_patch = match get_new_patch(versions, current) {
        Some(v) => Some(*v),
        None => None,
    };
    let new_pre = match get_new_pre(versions, current) {
        Some(v) => Some(*v),
        None => None,
    };
    Updates { new_minor, new_patch, new_pre }
}

/// The line that marks the variables of this tool in a profile.
pub const PROFILE_MARKER: &'static str = "# goup:envvars";

/// What is appended to a profile that does not hold the marker: the
/// marker and the command that applies the variables, each on a line of
/// its own, after an empty line and before one.
pub open spec fn profile_entry(apply_env_command: Seq<char>) -> Seq<char> {
    "\n"@ + PROFILE_MARKER@ + "\n"@ + apply_env_command + "\n\n"@
}

/// Returns what is to be appended to the profile with the given content,
/// so that the shell applies the variables when it starts; `None` if the
/// profile holds the marker already.
pub fn profile_addition(profile_content: &str, apply_env_command: &str) -> (r: Option<String>)
    ensures
        match r {
            Some(entry) => !occurs_in(PROFILE_MARKER@, profile_content@) && entry@
                == profile_entry(apply_env_command@),
            None => occurs_in(PROFILE_MARKER@, profile_content@),
        },
{
    let content = chars_of(profile_content);
    let marker = chars_of(PROFILE_MARKER);
    if find(content.as_slice(), marker.as_slice()).is_some() {
        return None;
    }
    let mut entry = String::from_str("\n");
    entry.append(PROFILE_MARKER);
    entry.append("\n");
    entry.append(apply_env_command);
    entry.append("\n\n");
    Some(entry)
}

/// Reads the answer to a question that is answered by one key: `y` and
/// `Y` say yes, `n` and `N` say no, and every other key gives the default.
pub fn accept(answer: char, default_yes: bool) -> (r: bool)
    ensures
        r == if answer == 'y' || answer == 'Y' {
            true
        } else if answer == 'n' || answer == 'N' {
            false
        } else {
            default_yes
        },
{
    match answer {
        'y' | 'Y' => true,
        'n' | 'N' => false,
        _ => default_yes,
    }
}

} // verus!
