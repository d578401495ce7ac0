//! Cleanup: which apps are cleaned, which of their version directories go,
//! and which cached downloads are stale.
use vstd::prelude::*;

use crate::sync::lemma_filter_take_step;
use crate::text::{starts_with, str_eq, str_starts_with, views};

verus! {

/// Options of a cleanup.
#[derive(Clone, Copy, Debug, PartialEq, Eq, Hash, Structural)]
pub enum CleanupOption {
    /// Also remove the cached downloads of the old versions.
    Cache,
}

/// Whether the list of names holds the wildcard `*`.
pub fn has_wildcard(apps: &Vec<String>) -> (res: bool)
    ensures
        res == views(apps@).contains("*"@),
{
    let mut i: usize = 0;
    while i < apps.len()
        invariant
            i <= apps@.len(),
            forall|k: int| 0 <= k < i ==> apps@[k]@ != "*"@,
        decreases apps@.len() - i,
    {
        if str_eq(apps[i].as_str(), "*") {
            assert(views(apps@)[i as int] == "*"@);
            return true;
        }
        i += 1;
    }
    assert(!views(apps@).contains("*"@)) by {
        if views(apps@).contains("*"@) {
            let k = choose|k: int| 0 <= k < views(apps@).len() && views(apps@)[k] == "*"@;
            assert(apps@[k]@ == "*"@);
        }
    }
    false
}

/// The apps a cleanup takes: every installed app where the list holds `*`,
/// else the listed ones.
pub fn cleanup_targets(apps: &Vec<String>, installed: &Vec<String>) -> (res: Vec<String>)
    ensures
        views(res@) == (if views(apps@).contains("*"@) {
            views(installed@)
        } else {
            views(apps@)
        }),
{
    if has_wildcard(apps) {
        installed.clone()
    } else {
        apps.clone()
    }
}

/// A directory of an app that holds an old version: neither the `current`
/// link nor the current version.
pub open spec fn is_old_version(dir: Seq<char>, current: Seq<char>) -> bool {
    dir != "current"@ && dir != current
}

/// The version directories of an app that a cleanup removes, in the order
/// of the listing.
pub fn old_versions(dirs: &Vec<String>, current: &str) -> (res: Vec<String>)
    ensures
        views(res@) == views(dirs@).filter(|d: Seq<char>| is_old_version(d, current@)),
{
    let ghost vs = views(dirs@);
    let ghost pred = |d: Seq<char>| is_old_version(d, current@);
    let mut res: Vec<String> = Vec::new();
    let mut i: usize = 0;
    while i < dirs.len()
        invariant
            i <= dirs@.len(),
            vs == views(dirs@),
            pred == (|d: Seq<char>| is_old_version(d, current@)),
            views(res@) == vs.take(i as int).filter(pred),
        decreases dirs@.len() - i,
    {
        proof {
            lemma_filter_take_step(vs, pred, i as int);
        }
        let d = dirs[i].as_str();
        let ghost prev = res@;
        if !str_eq(d, "current") && !str_eq(d, current) {
            res.push(dirs[i].clone());
            assert(views(res@) =~= views(prev).push(vs[i as int]));
        }
        i += 1;
    }
    proof {
        assert(vs.take(dirs@.len() as int) =~= vs);
    }
    res
}

/// A cached download of an app that is stale: it belongs to the app (its
/// name starts with `app#`) but not to the current version (`app#version#`).
pub open spec fn is_stale_cache_spec(file: Seq<char>, app: Seq<char>, current: Seq<char>) -> bool {
    starts_with(file, app + "#"@) && !starts_with(file, app + "#"@ + current + "#"@)
}

/// Whether a cached download of an app is stale.
pub fn is_stale_cache(file: &str, app: &str, current: &str) -> (res: bool)
    ensures
        res == is_stale_cache_spec(file@, app@, current@),
{
    let mut prefix_all = String::from_str(app);
    prefix_all.append("#");
    let mut prefix_current = String::from_str(app);
    prefix_current.append("#");
    prefix_current.append(current);
    prefix_current.append("#");
    str_starts_with(file, prefix_all.as_str()) && !str_starts_with(file, prefix_current.as_str())
}

/// What a cleanup does with one app.
pub enum CleanupPlan {
    /// The app is not installed: nothing.
    NotInstalled,
    /// The current version cannot be told: nothing, the app is clean.
    CurrentUnknown,
    /// No old version is left: the app is clean; stale downloads may still
    /// go.
    AlreadyClean,
    /// These version directories go; then stale downloads may go.
    RemoveVersions(Vec<String>),
}

/// Plans the cleanup of one app, given whether its directory exists, the
/// version its `current` link points at, and the directories it holds.
pub fn plan_cleanup(app_exists: bool, current: Option<&str>, dirs: &Vec<String>) -> (res: CleanupPlan)
    ensures
        !app_exists ==> res matches CleanupPlan::NotInstalled,
        app_exists && current is None ==> res matches CleanupPlan::CurrentUnknown,
        app_exists ==> (current matches Some(c) ==> {
            let old = views(dirs@).filter(|d: Seq<char>| is_old_version(d, c@));
            if old.len() == 0 {
                res matches CleanupPlan::AlreadyClean
            } else {
                res matches CleanupPlan::RemoveVersions(v) && views(v@) == old
            }
        }),
{
    if !app_exists {
        return CleanupPlan::NotInstalled;
    }
    match current {
        None => CleanupPlan::CurrentUnknown,
        Some(c) => {
            let old = old_versions(dirs, c);
            if old.len() == 0 {
                CleanupPlan::AlreadyClean
            } else {
                CleanupPlan::RemoveVersions(old)
            }
        },
    }
}

} // verus!
