use libscoop::cleanup::{cleanup_targets, is_stale_cache, old_versions, plan_cleanup, CleanupPlan};

fn v(x: &[&str]) -> Vec<String> {
    x.iter().map(|s| s.to_string()).collect()
}

#[test]
fn cleanup_targets_expand_the_wildcard() {
    let installed = v(&["a", "b"]);
    assert_eq!(cleanup_targets(&v(&["x", "*"]), &installed), installed);
    assert_eq!(cleanup_targets(&v(&["x"]), &installed), v(&["x"]));
}

#[test]
fn old_versions_keep_the_current_one() {
    let dirs = v(&["1.0", "current", "2.0", "1.5"]);
    assert_eq!(old_versions(&dirs, "2.0"), v(&["1.0", "1.5"]));
    match plan_cleanup(true, Some("2.0"), &dirs) {
        CleanupPlan::RemoveVersions(r) => assert_eq!(r, v(&["1.0", "1.5"])),
        _ => panic!("removal expected"),
    }
    assert!(matches!(plan_cleanup(true, Some("2.0"), &v(&["2.0", "current"])), CleanupPlan::AlreadyClean));
    assert!(matches!(plan_cleanup(true, None, &dirs), CleanupPlan::CurrentUnknown));
    assert!(matches!(plan_cleanup(false, Some("2.0"), &dirs), CleanupPlan::NotInstalled));
}

#[test]
fn stale_cache_files() {
    assert!(is_stale_cache("git#1.0#https_x.zip", "git", "2.0"));
    assert!(!is_stale_cache("git#2.0#https_x.zip", "git", "2.0"));
    assert!(!is_stale_cache("gitk#1.0#x", "git", "2.0"));
}
