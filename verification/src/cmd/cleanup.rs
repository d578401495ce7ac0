//! `cleanup`: remove old versions of packages.
use vstd::prelude::*;

use crate::cleanup::{has_wildcard, CleanupOption};
use crate::text::views;

verus! {

/// Remove old versions of packages
pub struct Args {
    /// App(s) to clean up (`*` to clean all).
    pub apps: Vec<String>,
    /// Clean all apps.
    pub all: bool,
    /// Also remove outdated download cache files.
    pub cache: bool,
}

/// The apps a cleanup is asked for: `*` with `all`, else the listed ones.
pub fn requested_apps(args: &Args) -> (res: Vec<String>)
    ensures
        views(res@) == (if args.all {
            seq!["*"@]
        } else {
            views(args.apps@)
        }),
{
    if args.all {
        let mut v: Vec<String> = Vec::new();
        v.push(String::from_str("*"));
        assert(views(v@) =~= seq!["*"@]);
        v
    } else {
        args.apps.clone()
    }
}

/// The options of a cleanup: removing stale downloads with `cache`.
pub fn options(args: &Args) -> (res: Vec<CleanupOption>)
    ensures
        res@ == (if args.cache {
            seq![CleanupOption::Cache]
        } else {
            Seq::<CleanupOption>::empty()
        }),
{
    let mut v: Vec<CleanupOption> = Vec::new();
    if args.cache {
        v.push(CleanupOption::Cache);
    }
    assert(v@ =~= (if args.cache {
        seq![CleanupOption::Cache]
    } else {
        Seq::<CleanupOption>::empty()
    }));
    v
}

/// Whether a cleanup ends with the closing message: it took all apps, or
/// more than one.
pub fn announces_done(args: &Args, apps: &Vec<String>) -> (res: bool)
    ensures
        res == (args.all || views(apps@).contains("*"@) || apps@.len() > 1),
{
    args.all || has_wildcard(apps) || apps.len() > 1
}

} // verus!
