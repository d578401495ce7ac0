use libscoop::shim::{
    cmd_shim_content, leaf_base, pick_alternate, shim_base_name, shim_extensions, shim_file_candidates,
    shim_file_content, shim_type, Shim, ShimType,
};

#[test]
fn shim_from_definitions() {
    let s = Shim::new(vec!["bin/tool.exe"]);
    assert_eq!(s.real_name, "bin/tool.exe");
    assert_eq!(s.name, "tool");
    assert_eq!(s.ty, ShimType::Exe);
    assert!(s.args.is_none());

    let s = Shim::new(vec!["tool.PS1", "t"]);
    assert_eq!(s.name, "t");
    assert_eq!(s.ty, ShimType::PowerShell);
    assert_eq!(s.args, Some(vec![]));

    let s = Shim::new(vec!["run.py", "r", "--fast", "-q"]);
    assert_eq!(s.ty, ShimType::Python);
    assert_eq!(s.args, Some(vec!["--fast", "-q"]));

    assert_eq!(Shim::new(vec!["script"]).ty, ShimType::Bash);
    assert_eq!(Shim::new(vec!["a.BAT"]).ty, ShimType::Batch);
    assert_eq!(Shim::new(vec!["a.cmd"]).ty, ShimType::Batch);
    assert_eq!(Shim::new(vec!["a.com"]).ty, ShimType::Exe);
    assert_eq!(Shim::new(vec!["a.jar"]).ty, ShimType::Java);
    assert_eq!(Shim::new(vec!["a.txt"]).ty, ShimType::Bash);
    assert_eq!(shim_type(Some("EXE")), ShimType::Exe);
    assert_eq!(shim_type(None), ShimType::Bash);
}

#[test]
fn shim_files() {
    assert_eq!(shim_extensions(ShimType::Exe), vec!["exe", "shim", "cmd"]);
    assert_eq!(shim_extensions(ShimType::PowerShell), vec!["cmd", "ps1", ""]);
    assert_eq!(shim_extensions(ShimType::Python), vec!["cmd", ""]);
    assert_eq!(shim_base_name("git", "exe"), "git.exe");
    assert_eq!(shim_base_name("git", ""), "git");
    assert_eq!(shim_file_candidates("git.exe", "git"), vec!["git.exe.git", "git.exe"]);
    assert_eq!(cmd_shim_content("C:\\apps\\x.exe"), "@echo off\n\"C:\\apps\\x.exe\" %*\n");
    assert_eq!(shim_file_content("C:\\apps\\x.exe"), "path = C:\\apps\\x.exe\nargs =\n");
}

#[test]
fn alternate_shim_is_the_latest() {
    let files = vec![
        ("git.exe".to_string(), 50u128),
        ("git.exe.a".to_string(), 10),
        ("git.exe.b".to_string(), 30),
        ("other".to_string(), 99),
        ("git.exe.c".to_string(), 30),
    ];
    assert_eq!(pick_alternate(&files, "git.exe"), Some(2));
    assert_eq!(pick_alternate(&files, "curl.exe"), None);
}

#[test]
fn leaf_base_of_plain_names() {
    assert_eq!(leaf_base("foo.exe"), Some("foo"));
    assert_eq!(leaf_base("archive.tar.gz"), Some("archive.tar"));
    assert_eq!(leaf_base("noext"), Some("noext"));
    assert_eq!(leaf_base(".hidden"), Some(".hidden"));
    assert_eq!(leaf_base("bin/tool.cmd"), Some("tool"));
}

#[test]
fn shim_from_a_nested_upper_case_executable() {
    let s = Shim::new(vec!["tools/App.EXE", "app", "--flag"]);
    assert_eq!(s.real_name, "tools/App.EXE");
    assert_eq!(s.name, "app");
    assert_eq!(s.ty, ShimType::Exe);
    assert_eq!(s.args, Some(vec!["--flag"]));
    let d = Shim::new(vec!["tools/App.EXE"]);
    assert_eq!(d.name, "App");
    assert_eq!(d.ty, ShimType::Exe);
}

#[test]
fn shim_type_of_a_backslash_path() {
    assert_eq!(Shim::new(vec!["bin\\app.exe"]).ty, ShimType::Exe);
    assert_eq!(Shim::new(vec!["tools\\Run.PS1", "run"]).ty, ShimType::PowerShell);
    assert_eq!(Shim::new(vec!["a.dir\\script"]).ty, ShimType::Bash);
}
