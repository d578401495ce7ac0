use libscoop::cmd::cache::{cache_matches, list_query, parse_cache_name, remove_scope, RemoveScope};
use libscoop::cmd::cleanup::{announces_done, options, requested_apps, Args as CleanupArgs};
use libscoop::cmd::list::{is_listed, query_hit, row_style, Args as ListArgs};
use libscoop::cmd::status::{flags_cell, installed_cell, latest_cell, missing_cell, CellColor};
use libscoop::cmd::bucket::repo_or_known;
use libscoop::cleanup::CleanupOption;
use libscoop::cui::yes_no_answer;
use libscoop::inventory::{PackageState, PackageStateFlag};
use libscoop::status::{StatusEntry, StatusInfoFlag};

fn state(name: &str, held: bool, flags: Vec<PackageStateFlag>) -> PackageState {
    PackageState {
        name: name.to_string(),
        bucket: "main".to_string(),
        installed_version: Some("1".to_string()),
        latest_version: None,
        held,
        missing_dependencies: vec![],
        flags,
    }
}

#[test]
fn cleanup_arguments() {
    let args = CleanupArgs { apps: vec!["a".to_string()], all: true, cache: true };
    assert_eq!(requested_apps(&args), vec!["*".to_string()]);
    assert_eq!(options(&args), vec![CleanupOption::Cache]);
    let args = CleanupArgs { apps: vec!["a".to_string()], all: false, cache: false };
    assert_eq!(requested_apps(&args), vec!["a".to_string()]);
    assert!(options(&args).is_empty());
    assert!(!announces_done(&args, &vec!["a".to_string()]));
    assert!(announces_done(&args, &vec!["a".to_string(), "b".to_string()]));
    assert!(announces_done(&args, &vec!["*".to_string()]));
}

#[test]
fn cache_arguments() {
    assert_eq!(list_query(&None), "*");
    assert_eq!(list_query(&Some("git".to_string())), "git");
    assert!(matches!(remove_scope(&None, true), RemoveScope::All));
    assert!(matches!(remove_scope(&Some("*".to_string()), false), RemoveScope::All));
    assert!(matches!(remove_scope(&Some("git".to_string()), false), RemoveScope::Matching(q) if q == "git"));
    assert!(matches!(remove_scope(&None, false), RemoveScope::Nothing));
    assert_eq!(repo_or_known(&None), "");
    assert_eq!(repo_or_known(&Some("https://x".to_string())), "https://x");
}

#[test]
fn list_filters() {
    assert!(query_hit("^gi", "git", false));
    assert!(!query_hit("^it", "git", false));
    assert!(!query_hit("(", "git", false));
    assert!(query_hit("git", "git", true));
    assert!(!query_hit("gi", "git", true));
    let args = ListArgs { query: vec![], explicit: false, upgradable: false, held: true };
    assert!(!is_listed(&args, &state("a", false, vec![])));
    assert!(is_listed(&args, &state("a", true, vec![])));
    let args = ListArgs { query: vec!["z".to_string(), "^a".to_string()], explicit: false, upgradable: true, held: false };
    assert!(is_listed(&args, &state("abc", false, vec![PackageStateFlag::Outdated])));
    assert!(!is_listed(&args, &state("abc", false, vec![])));
    assert!(!is_listed(&args, &state("bcd", false, vec![PackageStateFlag::Outdated])));
}

#[test]
fn list_rows() {
    let r = row_style(&state("a", true, vec![PackageStateFlag::Outdated]), false);
    assert_eq!(r.status, "held");
    assert_eq!(r.version_color, CellColor::Blue);
    assert_eq!(r.bucket_color, CellColor::Green);
    let r = row_style(&state("a", false, vec![PackageStateFlag::Outdated]), false);
    assert_eq!(r.status, "outdated");
    assert!(r.version_dimmed);
    let r = row_style(&state("a", false, vec![]), true);
    assert_eq!(r.status, "held");
    assert_eq!(r.bucket_color, CellColor::Yellow);
    let r = row_style(&state("a", false, vec![]), false);
    assert_eq!(r.status, "\u{2713}");
}

#[test]
fn status_cells() {
    let (t, c) = flags_cell(&vec![]);
    assert_eq!(t, "-");
    assert_eq!(c, CellColor::Plain);
    let (t, c) = flags_cell(&vec![StatusInfoFlag::Held, StatusInfoFlag::Outdated]);
    assert_eq!(t, "Held package, Outdated");
    assert_eq!(c, CellColor::Yellow);
    assert_eq!(flags_cell(&vec![StatusInfoFlag::Held]).1, CellColor::Magenta);
    assert_eq!(flags_cell(&vec![StatusInfoFlag::Outdated, StatusInfoFlag::ManifestRemoved]).1, CellColor::Red);
    assert_eq!(flags_cell(&vec![StatusInfoFlag::Deprecated]).1, CellColor::White);
    let mut e = StatusEntry {
        name: "a".to_string(),
        installed_version: None,
        latest_version: None,
        missing_dependencies: vec![],
        flags: vec![],
    };
    assert_eq!(missing_cell(&e), ("-".to_string(), CellColor::Plain));
    e.missing_dependencies = vec!["x".to_string(), "y".to_string()];
    assert_eq!(missing_cell(&e), ("x, y".to_string(), CellColor::Yellow));
}

#[test]
fn prompt_answers() {
    assert_eq!(yes_no_answer("y\n"), Some(true));
    assert_eq!(yes_no_answer("Y \r\n"), Some(true));
    assert_eq!(yes_no_answer("n"), Some(false));
    assert_eq!(yes_no_answer("N\n"), Some(false));
    assert_eq!(yes_no_answer("yes\n"), None);
    assert_eq!(yes_no_answer("\n"), None);
    assert_eq!(yes_no_answer(" y\n"), None);
}

#[test]
fn answers_ignore_unicode_trailing_white_space() {
    assert_eq!(yes_no_answer("y\u{3000}\u{a0}\t"), Some(true));
    assert_eq!(yes_no_answer("n\u{2029}"), Some(false));
    assert_eq!(yes_no_answer("y\u{200b}"), None);
}

#[test]
fn cache_file_names_split_into_package_and_version() {
    assert_eq!(parse_cache_name("git#2.44.0#https_github.com_git.7z"), ("git".to_string(), "2.44.0".to_string()));
    assert_eq!(parse_cache_name("git#2.44.0"), ("git".to_string(), "2.44.0".to_string()));
    assert_eq!(parse_cache_name("stray.tmp"), ("stray.tmp".to_string(), String::new()));
    assert!(cache_matches("*", "git"));
    assert!(cache_matches("git", "git"));
    assert!(!cache_matches("gi", "git"));
}

#[test]
fn version_cells_of_status_entries() {
    let mut e = StatusEntry {
        name: "a".to_string(),
        installed_version: None,
        latest_version: None,
        missing_dependencies: vec![],
        flags: vec![],
    };
    assert_eq!(installed_cell(&e), ("-".to_string(), false));
    assert_eq!(latest_cell(&e), ("-".to_string(), CellColor::Plain));
    e.installed_version = Some("1.0".to_string());
    e.latest_version = Some("1.1".to_string());
    assert_eq!(installed_cell(&e), ("1.0".to_string(), true));
    assert_eq!(latest_cell(&e), ("1.1".to_string(), CellColor::Blue));
}
