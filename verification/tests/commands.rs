use goup::commands::{
    accept, check_updates, filter_versions, is_current, is_installed, profile_addition,
    select_version, versions_to_clean, wanted_from_lowercase, wanted_version, FilterOptions,
    Updates, Wanted, PROFILE_MARKER,
};
use goup::parser::ParseError;
use goup::resolve::ResolveError;
use goup::version::Version;

fn list(items: &[&str]) -> Vec<Version> {
    items.iter().map(|s| s.parse().unwrap()).collect()
}

fn one(s: &str) -> Version {
    s.parse().unwrap()
}

fn upstream() -> Vec<Version> {
    list(&[
        "1.19.0", "1.19.3", "1.20.0", "1.20.4", "1.21.0", "1.21.3", "1.22rc1", "1.22rc3",
    ])
}

#[test]
fn wanted_keywords() {
    for word in ["stable", "latest", "s", "STABLE", "Latest", "S"] {
        assert_eq!(wanted_version(Some(word)), Ok(Wanted::Stable));
    }
    for word in ["unstable", "rc", "UnStable", "RC"] {
        assert_eq!(wanted_version(Some(word)), Ok(Wanted::Unstable));
    }
    assert_eq!(wanted_version(None), Ok(Wanted::LikeCurrent));
}

#[test]
fn wanted_versions_are_read_without_regard_to_case() {
    assert_eq!(
        wanted_version(Some("1.20")),
        Ok(Wanted::Matching(one("1.20")))
    );
    assert_eq!(
        wanted_version(Some("V1.22RC1")),
        Ok(Wanted::Matching(one("1.22rc1")))
    );
    assert_eq!(
        wanted_version(Some("1.2BETA3")),
        Ok(Wanted::Matching(one("1.2beta3")))
    );
    assert_eq!(wanted_from_lowercase("1.2BETA3"), Err(ParseError::Suffix));
    assert_eq!(wanted_from_lowercase("STABLE"), Err(ParseError::Major));
}

#[test]
fn wanted_rejects_what_is_no_version() {
    assert_eq!(wanted_version(Some("")), Err(ParseError::Major));
    assert_eq!(wanted_version(Some("newest")), Err(ParseError::Major));
    assert_eq!(wanted_version(Some("1.")), Err(ParseError::Minor));
    assert_eq!(wanted_version(Some("1.2.")), Err(ParseError::Patch));
    assert_eq!(wanted_version(Some("1.2.3stable")), Err(ParseError::Suffix));
    assert_eq!(wanted_version(Some("stable ")), Err(ParseError::Major));
}

#[test]
fn select_by_keyword() {
    let versions = upstream();
    assert_eq!(
        select_version(&Wanted::Stable, None, &versions),
        Ok(one("1.21.3"))
    );
    assert_eq!(
        select_version(&Wanted::Stable, Some(&one("1.22rc1")), &versions),
        Ok(one("1.21.3"))
    );
    assert_eq!(
        select_version(&Wanted::Unstable, None, &versions),
        Ok(one("1.22rc3"))
    );
    assert_eq!(
        select_version(&Wanted::Stable, None, &[]),
        Err(ResolveError::NotFound)
    );
}

#[test]
fn select_like_current() {
    let versions = upstream();
    assert_eq!(
        select_version(&Wanted::LikeCurrent, None, &versions),
        Ok(one("1.21.3"))
    );
    assert_eq!(
        select_version(&Wanted::LikeCurrent, Some(&one("1.20.0")), &versions),
        Ok(one("1.21.3"))
    );
    assert_eq!(
        select_version(&Wanted::LikeCurrent, Some(&one("1.22rc1")), &versions),
        Ok(one("1.22rc3"))
    );
}

#[test]
fn select_matching() {
    let versions = upstream();
    assert_eq!(
        select_version(&Wanted::Matching(one("1.20")), None, &versions),
        Ok(one("1.20.4"))
    );
    assert_eq!(
        select_version(&Wanted::Matching(one("1.22")), None, &versions),
        Err(ResolveError::NotFound)
    );
    assert_eq!(
        select_version(&Wanted::Matching(one("1.22rc1")), None, &versions),
        Ok(one("1.22rc1"))
    );
}

#[test]
fn installed_goes_by_equality() {
    let installed = list(&["1.20", "1.21.3"]);
    assert!(is_installed(&installed, &one("1.21.3")));
    assert!(is_installed(&installed, &one("1.20")));
    assert!(!is_installed(&installed, &one("1.20.0")));
    assert!(!is_installed(&installed, &one("1.21")));
    assert!(!is_installed(&[], &one("1")));
}

#[test]
fn current_goes_by_equality() {
    assert!(is_current(Some(&one("1.20")), &one("1.20")));
    assert!(!is_current(Some(&one("1.20")), &one("1.20.0")));
    assert!(!is_current(None, &one("1.20")));
}

#[test]
fn clean_keeps_the_selected_version() {
    let installed = list(&["1.19.3", "1.20.4", "1.21.3", "1.20.4"]);
    assert_eq!(
        versions_to_clean(&installed, Some(&one("1.20.4"))),
        list(&["1.19.3", "1.21.3"])
    );
    assert_eq!(versions_to_clean(&installed, None), installed);
    assert_eq!(
        versions_to_clean(&installed, Some(&one("1.20"))),
        installed
    );
    assert_eq!(versions_to_clean(&[], Some(&one("1"))), vec![]);
}

#[test]
fn filters() {
    let versions = upstream();
    assert_eq!(filter_versions(&versions, FilterOptions::All), versions);
    assert_eq!(
        filter_versions(&versions, FilterOptions::Stable),
        list(&["1.19.0", "1.19.3", "1.20.0", "1.20.4", "1.21.0", "1.21.3"])
    );
    assert_eq!(
        filter_versions(&versions, FilterOptions::Unstable),
        list(&["1.22rc1", "1.22rc3"])
    );
    assert_eq!(filter_versions(&[], FilterOptions::All), vec![]);
}

#[test]
fn updates_of_a_stable_version() {
    let versions = upstream();
    let updates = check_updates(&versions, &one("1.20.0"));
    assert_eq!(
        updates,
        Updates {
            new_minor: Some(one("1.21.3")),
            new_patch: Some(one("1.20.4")),
            new_pre: None,
        }
    );
    assert!(!updates.is_up_to_date());
    let updates = check_updates(&versions, &one("1.21.3"));
    assert_eq!(
        updates,
        Updates {
            new_minor: None,
            new_patch: None,
            new_pre: None,
        }
    );
    assert!(updates.is_up_to_date());
}

#[test]
fn updates_of_a_pre_release() {
    let versions = upstream();
    let updates = check_updates(&versions, &one("1.22rc1"));
    assert_eq!(
        updates,
        Updates {
            new_minor: None,
            new_patch: None,
            new_pre: Some(one("1.22rc3")),
        }
    );
    assert!(!updates.is_up_to_date());
    assert!(check_updates(&versions, &one("1.22rc3")).is_up_to_date());
    assert!(check_updates(&[], &one("1.22rc3")).is_up_to_date());
}

#[test]
fn profile_gets_the_marker_and_the_command_once() {
    assert_eq!(PROFILE_MARKER, "# goup:envvars");
    assert_eq!(
        profile_addition("", "eval \"$(goup env)\""),
        Some("\n# goup:envvars\neval \"$(goup env)\"\n\n".to_string())
    );
    assert_eq!(
        profile_addition("export A=1\n# goup\n", "cmd"),
        Some("\n# goup:envvars\ncmd\n\n".to_string())
    );
    assert_eq!(
        profile_addition("export A=1\n# goup:envvars\neval\n", "cmd"),
        None
    );
    assert_eq!(profile_addition("# goup:envvars", "cmd"), None);
    assert_eq!(profile_addition("x# goup:envvarsy", "cmd"), None);
}

#[test]
fn answers() {
    for default_yes in [false, true] {
        assert!(accept('y', default_yes));
        assert!(accept('Y', default_yes));
        assert!(!accept('n', default_yes));
        assert!(!accept('N', default_yes));
        assert_eq!(accept('\n', default_yes), default_yes);
        assert_eq!(accept('x', default_yes), default_yes);
    }
}
