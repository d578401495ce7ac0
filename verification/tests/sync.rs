use libscoop::error::Error;
use libscoop::sync::{
    arch_label, check_hash, choose_extract_source, dep_name, download_target_name, find_dependents,
    has_option, install_record, is_upgrade_all, needs_hash_check, parse_query, plan_removal, plan_sync, push_unique,
    query_exists, removal_transaction, resolve_query, select_removals, staging_dir_name,
    superseded_version, DownloadSize, ExtractSource, Package, QuerySelection, SyncOption,
    Transaction,
};

fn pkg(name: &str, bucket: &str) -> Package {
    Package {
        name: name.to_string(),
        bucket: bucket.to_string(),
        version: "1.0".to_string(),
        installed_version: None,
        installed: false,
        strictly_installed: false,
        held: false,
        upgradable_version: None,
        dependencies: vec![],
        has_uninstall_script: false,
    }
}

fn names(v: &[Package]) -> Vec<String> {
    v.iter().map(|p| p.name.clone()).collect()
}

fn sample() -> Vec<Package> {
    let fresh = pkg("fresh", "main");
    let mut upg = pkg("upg", "main");
    upg.installed = true;
    upg.strictly_installed = true;
    upg.upgradable_version = Some("2.0".to_string());
    let mut held = pkg("held", "main");
    held.installed = true;
    held.strictly_installed = true;
    held.held = true;
    held.upgradable_version = Some("2.0".to_string());
    let mut current = pkg("current", "main");
    current.installed = true;
    current.strictly_installed = true;
    let mut moved = pkg("moved", "extras");
    moved.installed = true;
    vec![fresh, upg, held, current, moved]
}

#[test]
fn plan_sorts_packages_into_parts() {
    let t = plan_sync(sample(), &[]);
    assert_eq!(names(t.install_view().unwrap()), vec!["fresh"]);
    assert_eq!(names(t.upgrade_view().unwrap()), vec!["upg"]);
    assert_eq!(names(t.replace_view().unwrap()), vec!["moved"]);
    assert!(t.remove_view().is_none());
    assert!(t.download_size().is_none());
    let added: Vec<String> = t.add_view().iter().map(|p| p.name.clone()).collect();
    assert_eq!(added, vec!["fresh", "upg", "moved"]);
}

#[test]
fn plan_respects_options() {
    let t = plan_sync(sample(), &[SyncOption::EscapeHold]);
    assert_eq!(names(t.upgrade_view().unwrap()), vec!["upg", "held"]);
    let t = plan_sync(sample(), &[SyncOption::OnlyUpgrade, SyncOption::NoReplace]);
    assert!(t.install_view().is_none());
    assert!(t.replace_view().is_none());
    assert_eq!(names(t.upgrade_view().unwrap()), vec!["upg"]);
    let t = plan_sync(sample(), &[SyncOption::NoUpgrade]);
    assert!(t.upgrade_view().is_none());
    let t = plan_sync(vec![], &[]);
    assert!(t.add_view().is_empty());
}

#[test]
fn transaction_parts_are_set_once() {
    let mut t = Transaction::new();
    t.set_install(vec![pkg("a", "main")]);
    t.set_install(vec![pkg("b", "main")]);
    assert_eq!(names(t.install_view().unwrap()), vec!["a"]);
    assert!(t.set_download_size(DownloadSize { total: 10, estimated: false }));
    assert!(!t.set_download_size(DownloadSize { total: 99, estimated: true }));
    assert_eq!(*t.download_size().unwrap(), DownloadSize { total: 10, estimated: false });
    t.set_remove(vec![pkg("r", "main")]);
    assert_eq!(names(t.remove_view().unwrap()), vec!["r"]);
}

#[test]
fn queries_split_and_match() {
    assert_eq!(parse_query("main/git"), ("main".to_string(), "git".to_string()));
    assert_eq!(parse_query("git"), ("".to_string(), "git".to_string()));
    let synced = vec![pkg("git", "main"), pkg("git", "extras"), pkg("curl", "main")];
    match resolve_query("main/git", &synced, false) {
        QuerySelection::Chosen(i) => assert_eq!(i, 0),
        _ => panic!("one package expected"),
    }
    match resolve_query("git", &synced, false) {
        QuerySelection::Candidates(v) => assert_eq!(v, vec![0, 1]),
        _ => panic!("candidates expected"),
    }
    assert!(matches!(resolve_query("nope", &synced, false), QuerySelection::NotFound));
    assert!(query_exists("curl", &synced));
    assert!(!query_exists("extras/curl", &synced));
}

#[test]
fn held_packages_are_skipped_unless_escaped() {
    let mut synced = vec![pkg("git", "main"), pkg("git", "extras")];
    synced[1].held = true;
    assert!(matches!(resolve_query("git", &synced, false), QuerySelection::Held));
    assert!(matches!(resolve_query("extras/git", &synced, false), QuerySelection::Held));
    assert!(matches!(resolve_query("extras/git", &synced, true), QuerySelection::Chosen(1)));
    assert!(matches!(resolve_query("git", &synced, true), QuerySelection::Candidates(_)));
}

#[test]
fn selection_keeps_no_duplicates() {
    let mut sel = vec![];
    push_unique(&mut sel, 3);
    push_unique(&mut sel, 1);
    push_unique(&mut sel, 3);
    assert_eq!(sel, vec![3, 1]);
    assert!(is_upgrade_all(&["*"]));
    assert!(!is_upgrade_all(&["*", "git"]));
    assert!(!is_upgrade_all(&["git"]));
}

fn installed_set() -> Vec<Package> {
    let mut git = pkg("git", "main");
    git.installed = true;
    let mut lazygit = pkg("lazygit", "extras");
    lazygit.installed = true;
    lazygit.dependencies = vec!["main/git".to_string()];
    let mut held = pkg("vim", "main");
    held.installed = true;
    held.held = true;
    vec![git, lazygit, held]
}

#[test]
fn removal_reports_missing_and_dependents() {
    let inst = installed_set();
    match plan_removal(&["nope"], &inst, &[]) {
        Err(Error::PackageNotFound(n)) => assert_eq!(n, "nope"),
        _ => panic!("not found expected"),
    }
    match plan_removal(&["git"], &inst, &[]) {
        Err(Error::PackageDependentFound(v)) => {
            assert_eq!(v, vec![("lazygit".to_string(), "git".to_string())])
        }
        _ => panic!("dependents expected"),
    }
    match plan_removal(&["git"], &inst, &[SyncOption::NoDependentCheck]) {
        Ok(v) => assert_eq!(v, vec![0]),
        _ => panic!("removal expected"),
    }
    match plan_removal(&["git", "lazygit"], &inst, &[]) {
        Ok(v) => assert_eq!(v, vec![0, 1]),
        _ => panic!("removal expected"),
    }
}

#[test]
fn removal_skips_held_unless_escaped() {
    let inst = installed_set();
    assert_eq!(select_removals(&["vim"], &inst, false).ok().unwrap(), Vec::<usize>::new());
    assert_eq!(select_removals(&["vim"], &inst, true).ok().unwrap(), vec![2]);
    assert_eq!(select_removals(&["vim", "zzz"], &inst, true).err().unwrap(), "zzz");
    assert!(find_dependents(&vec![1], &inst).is_empty());
    assert_eq!(dep_name("main/git"), "git");
    assert_eq!(dep_name("git"), "git");
}

#[test]
fn removal_refuses_uninstall_scripts() {
    let mut a = pkg("a", "main");
    a.has_uninstall_script = true;
    let mut b = pkg("b", "main");
    b.has_uninstall_script = true;
    match removal_transaction(vec![a, pkg("c", "main"), b]) {
        Err(Error::Custom(m)) => assert_eq!(
            m,
            "Found package(s) using PowerShell script:\n  a  b\nRemoval of package with PowerShell script is not yet supported."
        ),
        _ => panic!("error expected"),
    }
    let t = removal_transaction(vec![pkg("c", "main")]).ok().unwrap();
    assert_eq!(names(t.remove_view().unwrap()), vec!["c"]);
}

#[test]
fn install_steps() {
    assert_eq!(download_target_name("https://x.org/dl/tool.exe?raw=1"), "tool.exe");
    assert_eq!(download_target_name("tool.exe"), "tool.exe");
    assert_eq!(arch_label("x86_64"), "64bit");
    assert_eq!(arch_label("x86"), "32bit");
    assert_eq!(arch_label("aarch64"), "arm64");
    assert_eq!(arch_label("riscv64"), "riscv64");
    assert_eq!(staging_dir_name("1.2.3"), ".tmp-1.2.3");
    assert!(!needs_hash_check("nightly"));
    assert!(needs_hash_check("1.0"));
    assert!(check_hash("a", "u", "abc", "abc").is_ok());
    match check_hash("a", "u", "abc", "abd") {
        Err(Error::HashMismatch(ctx)) => {
            assert_eq!(ctx.expected, "abc");
            assert_eq!(ctx.actual, "abd");
            assert_eq!(ctx.package_name, "a");
            assert_eq!(ctx.url, "u");
        }
        _ => panic!("mismatch expected"),
    }
    assert_eq!(superseded_version(true, Some("1.0"), "2.0"), Some("1.0".to_string()));
    assert_eq!(superseded_version(true, Some("2.0"), "2.0"), None);
    assert_eq!(superseded_version(false, Some("1.0"), "2.0"), None);
    assert!(matches!(choose_extract_source(None, vec!["only".to_string()]), ExtractSource::OnlySubdir(s) if s == "only"));
    assert!(matches!(choose_extract_source(None, vec![]), ExtractSource::Staging));
    assert!(matches!(
        choose_extract_source(Some(vec!["bin".to_string()]), vec!["only".to_string()]),
        ExtractSource::ExtractDir(d) if d == vec!["bin".to_string()]
    ));
    assert!(has_option(&[SyncOption::Purge, SyncOption::Cascade], SyncOption::Cascade));
    assert!(!has_option(&[SyncOption::Purge], SyncOption::Cascade));
}

use libscoop::sync::{first_sync_step, next_sync_step, select_install, InstallSelection, StepOutcome, SyncStep};

fn run(options: &[SyncOption], added: usize, outcome_of: impl Fn(SyncStep) -> StepOutcome) -> Vec<SyncStep> {
    let mut steps = vec![];
    let mut step = first_sync_step(options, added);
    for _ in 0..20 {
        steps.push(step);
        if matches!(step, SyncStep::NoOp | SyncStep::Done | SyncStep::Cancelled | SyncStep::Aborted) {
            break;
        }
        step = next_sync_step(step, outcome_of(step), options, added);
    }
    steps
}

#[test]
fn sync_steps_follow_the_options() {
    let ok = |_| StepOutcome::Succeeded;
    assert_eq!(
        run(&[], 2, ok),
        vec![SyncStep::ComputeDownloadSize, SyncStep::Confirm, SyncStep::Download, SyncStep::VerifyHashes, SyncStep::Install(0), SyncStep::Install(1), SyncStep::Done]
    );
    assert_eq!(run(&[], 0, ok), vec![SyncStep::NoOp]);
    assert_eq!(run(&[SyncOption::AssumeYes], 1, ok), vec![SyncStep::Download, SyncStep::VerifyHashes, SyncStep::Install(0), SyncStep::Done]);
    assert_eq!(run(&[SyncOption::Offline], 1, ok), vec![SyncStep::Confirm, SyncStep::VerifyHashes, SyncStep::Install(0), SyncStep::Done]);
    assert_eq!(
        run(&[SyncOption::DownloadOnly, SyncOption::NoHashCheck, SyncOption::AssumeYes], 3, ok),
        vec![SyncStep::Download, SyncStep::Done]
    );
}

#[test]
fn sync_steps_stop_on_refusal_or_failure() {
    let declined = |s| if s == SyncStep::Confirm { StepOutcome::Declined } else { StepOutcome::Succeeded };
    assert_eq!(run(&[], 1, declined), vec![SyncStep::ComputeDownloadSize, SyncStep::Confirm, SyncStep::Cancelled]);
    let fail_first = |s| if s == SyncStep::Install(0) { StepOutcome::Failed } else { StepOutcome::Succeeded };
    assert_eq!(run(&[SyncOption::AssumeYes], 2, fail_first), vec![SyncStep::Download, SyncStep::VerifyHashes, SyncStep::Install(0), SyncStep::RollBack(0), SyncStep::Aborted]);
    assert_eq!(
        run(&[SyncOption::AssumeYes, SyncOption::IgnoreFailure], 2, fail_first),
        vec![SyncStep::Download, SyncStep::VerifyHashes, SyncStep::Install(0), SyncStep::Install(1), SyncStep::Done]
    );
    let bad_download = |s| if s == SyncStep::Download { StepOutcome::Failed } else { StepOutcome::Succeeded };
    assert_eq!(run(&[SyncOption::AssumeYes, SyncOption::IgnoreFailure], 2, bad_download), vec![SyncStep::Download, SyncStep::Aborted]);
}

#[test]
fn install_record_keeps_the_hold() {
    let fresh = pkg("fresh", "main");
    let r = install_record("x86_64", &fresh);
    assert_eq!(r.architecture, "64bit");
    assert_eq!(r.bucket, Some("main".to_string()));
    assert_eq!(r.hold, Some(false));
    let mut held = pkg("held", "extras");
    held.held = true;
    let r = install_record("aarch64", &held);
    assert_eq!(r.architecture, "arm64");
    assert_eq!(r.bucket, Some("extras".to_string()));
    assert_eq!(r.hold, Some(true));
}

#[test]
fn removal_tolerates_shared_names_it_does_not_look_up() {
    let mut inst = installed_set();
    let mut a = pkg("dup", "main");
    a.installed = true;
    let mut b = pkg("dup", "extras");
    b.installed = true;
    inst.push(a);
    inst.push(b);
    match plan_removal(&["vim"], &inst, &[SyncOption::EscapeHold]) {
        Ok(v) => assert_eq!(v, vec![2]),
        _ => panic!("removal expected"),
    }
    match plan_removal(&["nope", "dup"], &inst, &[]) {
        Err(Error::PackageNotFound(n)) => assert_eq!(n, "nope"),
        _ => panic!("not found expected"),
    }
}

#[test]
fn held_packages_are_replaced_only_when_escaped() {
    let mut moved = pkg("moved", "extras");
    moved.installed = true;
    moved.held = true;
    let t = plan_sync(vec![moved], &[]);
    assert!(t.replace_view().is_none());
    let mut moved = pkg("moved", "extras");
    moved.installed = true;
    moved.held = true;
    let t = plan_sync(vec![moved], &[SyncOption::EscapeHold]);
    assert_eq!(names(t.replace_view().unwrap()), vec!["moved"]);
}

#[test]
fn install_selection_follows_the_queries() {
    let mut held = pkg("vim", "main");
    held.held = true;
    let synced = vec![pkg("git", "main"), pkg("git", "extras"), pkg("curl", "main"), held];
    match select_install(&["curl", "vim", "main/git", "curl"], &synced, false, &vec![]) {
        InstallSelection::Selected(v) => assert_eq!(v, vec![2, 0]),
        _ => panic!("selection expected"),
    }
    match select_install(&["vim"], &synced, true, &vec![]) {
        InstallSelection::Selected(v) => assert_eq!(v, vec![3]),
        _ => panic!("selection expected"),
    }
    match select_install(&["curl", "git", "nope"], &synced, false, &vec![]) {
        InstallSelection::NeedsChoice(v) => assert_eq!(v, vec![0, 1]),
        _ => panic!("a choice expected"),
    }
    match select_install(&["curl", "git", "nope"], &synced, false, &vec![1]) {
        InstallSelection::NotFound(q) => assert_eq!(q, "nope"),
        _ => panic!("not found expected"),
    }
    match select_install(&["git", "extras/git"], &synced, false, &vec![1]) {
        InstallSelection::Selected(v) => assert_eq!(v, vec![1]),
        _ => panic!("selection expected"),
    }
    match select_install(&["git"], &synced, false, &vec![2]) {
        InstallSelection::NeedsChoice(v) => assert_eq!(v, vec![0, 1]),
        _ => panic!("a choice expected"),
    }
}

fn dep_pkg(name: &str, deps: &[&str], held: bool) -> Package {
    let mut p = pkg(name, "main");
    p.installed = true;
    p.held = held;
    p.dependencies = deps.iter().map(|d| d.to_string()).collect();
    p
}

#[test]
fn cascade_removal_takes_dependencies_no_one_else_needs() {
    let inst = vec![
        dep_pkg("app", &["main/lib"], false),
        dep_pkg("lib", &["base"], false),
        dep_pkg("base", &[], false),
        dep_pkg("other", &["base"], false),
    ];
    match plan_removal(&["app"], &inst, &[SyncOption::Cascade]) {
        Ok(v) => assert_eq!(v, vec![0, 1]),
        _ => panic!("removal expected"),
    }
    match plan_removal(&["app"], &inst, &[]) {
        Ok(v) => assert_eq!(v, vec![0]),
        _ => panic!("removal expected"),
    }
    let inst = vec![dep_pkg("app", &["main/lib"], false), dep_pkg("lib", &["base"], false), dep_pkg("base", &[], false)];
    match plan_removal(&["app"], &inst, &[SyncOption::Cascade]) {
        Ok(v) => assert_eq!(v, vec![0, 1, 2]),
        _ => panic!("removal expected"),
    }
    let inst = vec![dep_pkg("app", &["main/lib"], false), dep_pkg("lib", &["base"], true), dep_pkg("base", &[], false)];
    match plan_removal(&["app"], &inst, &[SyncOption::Cascade]) {
        Ok(v) => assert_eq!(v, vec![0]),
        _ => panic!("removal expected"),
    }
    match plan_removal(&["app"], &inst, &[SyncOption::Cascade, SyncOption::EscapeHold]) {
        Ok(v) => assert_eq!(v, vec![0, 1, 2]),
        _ => panic!("removal expected"),
    }
}
