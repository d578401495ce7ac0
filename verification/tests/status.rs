use libscoop::inventory::{PackageState, PackageStateFlag};
use libscoop::status::{
    collect_status, collect_status_entries, remote_ref_name, repo_outdated, RepoChecks,
    StatusInfoFlag,
};

fn state(name: &str, flags: Vec<PackageStateFlag>) -> PackageState {
    PackageState {
        name: name.to_string(),
        bucket: "main".to_string(),
        installed_version: Some("1".to_string()),
        latest_version: None,
        held: false,
        missing_dependencies: vec![],
        flags,
    }
}

#[test]
fn flags_read_as_text() {
    assert_eq!(StatusInfoFlag::Outdated.as_str(), "Outdated");
    assert_eq!(StatusInfoFlag::InstallFailed.as_str(), "Install failed");
    assert_eq!(StatusInfoFlag::Held.as_str(), "Held package");
    assert_eq!(StatusInfoFlag::Deprecated.as_str(), "Deprecated");
    assert_eq!(StatusInfoFlag::ManifestRemoved.as_str(), "Manifest removed");
    assert_eq!(StatusInfoFlag::MissingDependencies.as_str(), "Missing dependencies");
}

#[test]
fn entries_are_the_flagged_states() {
    let states = vec![
        state("b", vec![PackageStateFlag::Held, PackageStateFlag::Outdated]),
        state("ok", vec![]),
        state("a", vec![PackageStateFlag::InstallFailed]),
    ];
    let entries = collect_status_entries(states);
    assert_eq!(entries.len(), 2);
    assert_eq!(entries[0].name, "b");
    assert_eq!(entries[0].flags, vec![StatusInfoFlag::Held, StatusInfoFlag::Outdated]);
    assert_eq!(entries[1].flags, vec![StatusInfoFlag::InstallFailed]);
}

#[test]
fn report_combines_repository_checks() {
    let states = vec![state("b", vec![PackageStateFlag::Held]), state("a", vec![PackageStateFlag::Outdated])];
    let r = collect_status(
        Some(RepoChecks { scoop: Some(true), buckets: vec![Some(false), None, Some(true)] }),
        states,
    );
    assert!(r.scoop_outdated);
    assert!(r.buckets_outdated);
    assert!(r.git_check_failed);
    let names: Vec<String> = r.entries.iter().map(|e| e.name.clone()).collect();
    assert_eq!(names, vec!["a", "b"]);

    let r = collect_status(Some(RepoChecks { scoop: Some(false), buckets: vec![Some(false)] }), vec![]);
    assert!(!r.scoop_outdated && !r.buckets_outdated && !r.git_check_failed);
    let r = collect_status(Some(RepoChecks { scoop: None, buckets: vec![] }), vec![]);
    assert!(r.git_check_failed);
    let r = collect_status(None, vec![]);
    assert!(!r.scoop_outdated && !r.buckets_outdated && !r.git_check_failed);
    assert!(r.entries.is_empty());
}

#[test]
fn repositories_against_their_remote() {
    assert_eq!(remote_ref_name(Some("master")), "refs/remotes/origin/master");
    assert_eq!(remote_ref_name(None), "refs/remotes/origin/main");
    let a = [1u8, 2, 3];
    let b = [1u8, 2, 4];
    assert!(!repo_outdated(Some(&a), Some(&a)));
    assert!(repo_outdated(Some(&a), Some(&b)));
    assert!(!repo_outdated(None, Some(&b)));
    assert!(!repo_outdated(Some(&a), None));
}
