use libscoop::version::version_newer;
use libscoop::inventory::{
    manifest_locations, collect_package_state, collect_package_states, detect_missing_dependencies,
    normalize_pkg_name, AppRecord, InstallFacts, ManifestFacts, OriginLookup, PackageStateFlag,
};

fn s(x: &str) -> String {
    x.to_string()
}

fn record(name: &str, deps: &[&str], held: bool, origin: OriginLookup) -> AppRecord {
    AppRecord {
        name: s(name),
        files_present: true,
        manifest: Some(ManifestFacts {
            version: s("1.0"),
            dependencies: deps.iter().map(|d| s(d)).collect(),
        }),
        install: Some(InstallFacts { held, bucket: Some(s("main")) }),
        origin,
    }
}

#[test]
fn package_names_are_normalized() {
    assert_eq!(normalize_pkg_name("Main/Git"), "git");
    assert_eq!(normalize_pkg_name("VSCode"), "vscode");
    assert_eq!(normalize_pkg_name("a/b/C"), "b/c");
    assert_eq!(normalize_pkg_name("Ünï/X"), "x");
    assert_eq!(normalize_pkg_name("ÄB"), "Äb");
}

#[test]
fn missing_dependencies_skip_tools_and_installed() {
    let installed = vec![s("git"), s("curl")];
    let deps = vec![s("main/Git"), s("7zip"), s("lessmsi"), s("extras/Foo"), s("dark"), s("innounp"), s("bar")];
    assert_eq!(detect_missing_dependencies(&deps, &installed), vec![s("foo"), s("bar")]);
    assert!(detect_missing_dependencies(&vec![], &installed).is_empty());
}

#[test]
fn state_of_a_failed_install() {
    let rec = AppRecord {
        name: s("broken"),
        files_present: false,
        manifest: None,
        install: None,
        origin: OriginLookup::BucketUnavailable,
    };
    let st = collect_package_state(&rec, &vec![]).unwrap();
    assert_eq!(st.name, "broken");
    assert_eq!(st.bucket, "unknown");
    assert_eq!(st.flags, vec![PackageStateFlag::InstallFailed]);
    assert_eq!(st.installed_version, None);
}

#[test]
fn state_of_an_outdated_held_package() {
    let rec = record("tool", &["dep"], true, OriginLookup::Found { version: s("2.0") });
    let st = collect_package_state(&rec, &vec![]).unwrap();
    assert_eq!(
        st.flags,
        vec![PackageStateFlag::Held, PackageStateFlag::Outdated, PackageStateFlag::MissingDependencies]
    );
    assert!(st.held);
    assert_eq!(st.bucket, "main");
    assert_eq!(st.installed_version, Some(s("1.0")));
    assert_eq!(st.latest_version, Some(s("2.0")));
    assert_eq!(st.missing_dependencies, vec![s("dep")]);
}

#[test]
fn state_of_packages_the_bucket_dropped_or_keeps() {
    let st = collect_package_state(&record("a", &[], false, OriginLookup::ManifestRemoved), &vec![]).unwrap();
    assert_eq!(st.flags, vec![PackageStateFlag::ManifestRemoved]);
    let st = collect_package_state(
        &record("a", &[], false, OriginLookup::Found { version: s("1.0") }),
        &vec![],
    )
    .unwrap();
    assert!(st.flags.is_empty());
    assert_eq!(st.latest_version, None);
    let mut rec = record("a", &[], false, OriginLookup::BucketUnavailable);
    rec.manifest = None;
    assert!(collect_package_state(&rec, &vec![]).is_none());
}

#[test]
fn states_are_listed_by_name_without_the_manager_itself() {
    let recs = vec![
        record("zed", &["Alpha"], false, OriginLookup::Unreadable),
        record("Scoop", &[], false, OriginLookup::Unreadable),
        record("alpha", &["scoop"], false, OriginLookup::Unreadable),
        record("mid", &[], false, OriginLookup::Unreadable),
    ];
    let states = collect_package_states(&recs);
    let names: Vec<String> = states.iter().map(|x| x.name.clone()).collect();
    assert_eq!(names, vec![s("alpha"), s("mid"), s("zed")]);
    assert!(states[2].missing_dependencies.is_empty());
    assert_eq!(states[0].missing_dependencies, vec![s("scoop")]);
}

#[test]
fn versions_compare_by_segments() {
    assert!(version_newer("1.10", "1.9"));
    assert!(!version_newer("1.9", "1.10"));
    assert!(version_newer("2.0", "1.99.99"));
    assert!(version_newer("1.0.1", "1.0"));
    assert!(!version_newer("1.0", "1.0"));
    assert!(version_newer("1.0-beta", "1.0-alpha"));
    assert!(version_newer("24.04", "23.10"));
    assert!(!version_newer("nightly", "nightly"));
    assert!(version_newer("99999999999999999999999", "1"));
}

#[test]
fn manifests_are_looked_up_in_the_bucket_directory_first() {
    assert_eq!(
        manifest_locations("git"),
        vec![vec!["bucket".to_string(), "git.json".to_string()], vec!["git.json".to_string()]]
    );
}
