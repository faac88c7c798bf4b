use goup::resolve::{
    find_installed_version, find_upstream_version, get_latest_upstream_version, get_new_minor,
    get_new_patch, get_new_pre, get_upstream_versions, ResolveError,
};
use goup::sorting::sort_versions;
use goup::version::Version;

fn get_versions() -> Vec<Version> {
    vec![
        "1.19.0".parse().unwrap(),
        "1.19.1".parse().unwrap(),
        "1.19.2".parse().unwrap(),
        "1.19.3".parse().unwrap(),
        "1.20.0".parse().unwrap(),
        "1.20.1".parse().unwrap(),
        "1.20.2".parse().unwrap(),
        "1.20.3".parse().unwrap(),
        "1.20.4".parse().unwrap(),
        "1.21.0".parse().unwrap(),
        "1.21.1".parse().unwrap(),
        "1.21.2".parse().unwrap(),
        "1.21.3".parse().unwrap(),
        "1.22rc1".parse().unwrap(),
        "1.22rc2".parse().unwrap(),
        "1.22rc3".parse().unwrap(),
    ]
}

fn list(items: &[&str]) -> Vec<Version> {
    items.iter().map(|s| s.parse().unwrap()).collect()
}

fn one(s: &str) -> Version {
    s.parse().unwrap()
}

#[test]
fn test_get_new_minor() {
    let versions = get_versions();

    let current = "1.20.3".parse().unwrap();
    let new = get_new_minor(&versions, &current);
    let exp = Some("1.21.3".parse().unwrap());
    assert_eq!(exp.as_ref(), new);

    let current = "1.21.1".parse().unwrap();
    let new = get_new_minor(&versions, &current);
    let exp = None;
    assert_eq!(exp.as_ref(), new);
}

#[test]
fn test_get_new_patch() {
    let versions = get_versions();

    let current = "1.20.3".parse().unwrap();
    let new = get_new_patch(&versions, &current);
    let exp = Some("1.20.4".parse().unwrap());
    assert_eq!(exp.as_ref(), new);

    let current = "1.19.3".parse().unwrap();
    let new = get_new_patch(&versions, &current);
    let exp = None;
    assert_eq!(exp.as_ref(), new);
}

#[test]
fn test_get_new_pre() {
    let versions = get_versions();

    let current = "1.22rc1".parse().unwrap();
    let new = get_new_pre(&versions, &current);
    let exp = Some("1.22rc3".parse().unwrap());
    assert_eq!(exp.as_ref(), new);

    let current = "1.21.3".parse().unwrap();
    let new = get_new_pre(&versions, &current);
    let exp = None;
    assert_eq!(exp.as_ref(), new);

    let current = "1.22rc3".parse().unwrap();
    let new = get_new_pre(&versions, &current);
    let exp = None;
    assert_eq!(exp.as_ref(), new);
}

#[test]
fn new_minor_keeps_to_the_stability_of_current() {
    let versions = get_versions();
    assert_eq!(get_new_minor(&versions, &one("1.21.3")), None);
    assert_eq!(
        get_new_minor(&versions, &one("1.21rc1")),
        Some(&one("1.22rc3"))
    );
    assert_eq!(
        get_new_minor(&versions, &one("1.19.0")),
        Some(&one("1.21.3"))
    );
    assert_eq!(get_new_minor(&versions, &one("2.0.0")), None);
    assert_eq!(get_new_minor(&[], &one("1.0.0")), None);
}

#[test]
fn new_minor_reads_a_missing_minor_as_zero() {
    let versions = list(&["1", "1.0", "1.0.5", "2.1"]);
    assert_eq!(get_new_minor(&versions, &one("1")), None);
    assert_eq!(get_new_minor(&versions, &one("1.0")), None);
    let versions = list(&["1", "1.0", "1.1", "2.1"]);
    assert_eq!(get_new_minor(&versions, &one("1")), Some(&one("1.1")));
}

#[test]
fn new_patch_ignores_stability_and_ranks_a_missing_patch_lowest() {
    let versions = list(&["1.20", "1.20.0", "1.20.1", "1.20.2rc1"]);
    assert_eq!(
        get_new_patch(&versions, &one("1.20.1")),
        Some(&one("1.20.2rc1"))
    );
    assert_eq!(
        get_new_patch(&versions, &one("1.20")),
        Some(&one("1.20.2rc1"))
    );
    let versions = list(&["1.20", "1.20.0"]);
    assert_eq!(get_new_patch(&versions, &one("1.20")), Some(&one("1.20.0")));
    assert_eq!(get_new_patch(&versions, &one("1.20.0")), None);
    assert_eq!(get_new_patch(&versions, &one("1.21")), None);
}

#[test]
fn new_pre_goes_by_the_order_of_qualifiers() {
    let versions = list(&["1.22alpha2", "1.22beta1", "1.22rc1", "1.22", "1.23rc1"]);
    assert_eq!(
        get_new_pre(&versions, &one("1.22alpha1")),
        Some(&one("1.22rc1"))
    );
    assert_eq!(get_new_pre(&versions, &one("1.22rc1")), None);
    assert_eq!(get_new_pre(&versions, &one("1.22")), None);
    assert_eq!(
        get_new_pre(&versions, &one("1.22beta1")),
        Some(&one("1.22rc1"))
    );
}

#[test]
fn latest_upstream_version() {
    let versions = get_versions();
    assert_eq!(
        get_latest_upstream_version(&versions, false),
        Ok(one("1.21.3"))
    );
    assert_eq!(
        get_latest_upstream_version(&versions, true),
        Ok(one("1.22rc3"))
    );
    assert_eq!(
        get_latest_upstream_version(&[], false),
        Err(ResolveError::NotFound)
    );
    assert_eq!(
        get_latest_upstream_version(&[], true),
        Err(ResolveError::NotFound)
    );
    let unstable_only = list(&["1.22rc1", "1.22rc2"]);
    assert_eq!(
        get_latest_upstream_version(&unstable_only, false),
        Err(ResolveError::NotFound)
    );
    assert_eq!(
        get_latest_upstream_version(&unstable_only, true),
        Ok(one("1.22rc2"))
    );
}

#[test]
fn find_upstream_version_takes_the_last_match() {
    let versions = get_versions();
    assert_eq!(
        find_upstream_version(&versions, &one("1.20")),
        Ok(one("1.20.4"))
    );
    assert_eq!(
        find_upstream_version(&versions, &one("1")),
        Ok(one("1.21.3"))
    );
    assert_eq!(
        find_upstream_version(&versions, &one("1.19.2")),
        Ok(one("1.19.2"))
    );
    assert_eq!(
        find_upstream_version(&versions, &one("1.22")),
        Err(ResolveError::NotFound)
    );
    assert_eq!(
        find_upstream_version(&versions, &one("1.22rc2")),
        Ok(one("1.22rc2"))
    );
    assert_eq!(
        find_upstream_version(&versions, &one("1.22rc9")),
        Err(ResolveError::NotFound)
    );
    assert_eq!(
        find_upstream_version(&versions, &one("2")),
        Err(ResolveError::NotFound)
    );
    assert_eq!(
        find_upstream_version(&[], &one("1")),
        Err(ResolveError::NotFound)
    );
}

#[test]
fn removal_asks_for_exactly_one_match() {
    let installed = list(&["1.20.1", "1.20.2"]);
    assert_eq!(
        find_installed_version(&installed, &one("1.20")),
        Err(ResolveError::Ambiguous(list(&["1.20.1", "1.20.2"])))
    );
    assert_eq!(
        find_upstream_version(&installed, &one("1.20")),
        Ok(one("1.20.2"))
    );
    assert_eq!(
        find_installed_version(&installed, &one("1.20.2")),
        Ok(one("1.20.2"))
    );
    assert_eq!(
        find_installed_version(&installed, &one("1.21")),
        Err(ResolveError::NotFound)
    );
    assert_eq!(
        find_installed_version(&[], &one("1")),
        Err(ResolveError::NotFound)
    );
}

#[test]
fn removal_matches_pre_releases_too() {
    let installed = list(&["1.20.1", "1.21rc1"]);
    assert_eq!(
        find_installed_version(&installed, &one("1.21")),
        Ok(one("1.21rc1"))
    );
    assert_eq!(
        find_installed_version(&installed, &one("1")),
        Err(ResolveError::Ambiguous(list(&["1.20.1", "1.21rc1"])))
    );
    let unsorted = list(&["1.3", "1.1", "1.2"]);
    assert_eq!(
        find_installed_version(&unsorted, &one("1")),
        Err(ResolveError::Ambiguous(list(&["1.3", "1.1", "1.2"])))
    );
}

#[test]
fn sort_is_ascending_and_stable() {
    let sorted = sort_versions(list(&[
        "1.21.0", "1.0", "1.22rc1", "1", "1.19.3", "1.22", "1.0.0", "1.22beta1", "0.9",
    ]));
    assert_eq!(
        sorted,
        list(&["0.9", "1.0", "1", "1.0.0", "1.19.3", "1.21.0", "1.22beta1", "1.22rc1", "1.22"])
    );
    assert_eq!(sort_versions(vec![]), vec![]);
    assert_eq!(sort_versions(list(&["3"])), list(&["3"]));
    assert_eq!(sort_versions(list(&["2", "1"])), list(&["1", "2"]));
}

#[test]
fn upstream_versions_come_sorted() {
    let mut shuffled = get_versions();
    shuffled.reverse();
    shuffled.swap(2, 9);
    assert_eq!(get_upstream_versions(shuffled), get_versions());
}
