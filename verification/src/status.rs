//! The status report: whether the package manager and its buckets are
//! behind their remotes, and the installed packages that need attention.
use vstd::prelude::*;

use crate::inventory::{PackageState, PackageStateFlag};
use crate::order::{name_sorted, Named, sort_by_name, sorted_by_name};

verus! {

/// The status of the package manager, its buckets and its packages.
pub struct StatusReport {
    /// The package manager's repository is behind its remote.
    pub scoop_outdated: bool,
    /// Some bucket repository is behind its remote.
    pub buckets_outdated: bool,
    /// True if one or more git repositories could not be read locally.
    pub git_check_failed: bool,
    /// The packages that need attention, in order of name.
    pub entries: Vec<StatusEntry>,
}

/// An installed package that needs attention.
pub struct StatusEntry {
    pub name: String,
    pub installed_version: Option<String>,
    pub latest_version: Option<String>,
    pub missing_dependencies: Vec<String>,
    pub flags: Vec<StatusInfoFlag>,
}

/// Why an installed package needs attention.
#[derive(Clone, Copy, Debug, PartialEq, Eq, Structural)]
pub enum StatusInfoFlag {
    Outdated,
    InstallFailed,
    Held,
    Deprecated,
    ManifestRemoved,
    MissingDependencies,
}

impl Named for StatusEntry {
    open spec fn key(&self) -> Seq<char> {
        self.name@
    }

    fn name_str(&self) -> (res: &str) {
        self.name.as_str()
    }
}

/// The text a status flag is shown with.
pub open spec fn flag_text(f: StatusInfoFlag) -> Seq<char> {
    match f {
        StatusInfoFlag::Outdated => "Outdated"@,
        StatusInfoFlag::InstallFailed => "Install failed"@,
        StatusInfoFlag::Held => "Held package"@,
        StatusInfoFlag::Deprecated => "Deprecated"@,
        StatusInfoFlag::ManifestRemoved => "Manifest removed"@,
        StatusInfoFlag::MissingDependencies => "Missing dependencies"@,
    }
}

impl StatusInfoFlag {
    /// The text the flag is shown with.
    pub fn as_str(&self) -> (res: &'static str)
        ensures
            res@ == flag_text(*self),
    {
        match self {
            Self::Outdated => "Outdated",
            Self::InstallFailed => "Install failed",
            Self::Held => "Held package",
            Self::Deprecated => "Deprecated",
            Self::ManifestRemoved => "Manifest removed",
            Self::MissingDependencies => "Missing dependencies",
        }
    }
}

/// The status flag a package state flag stands for.
pub open spec fn status_flag(f: PackageStateFlag) -> StatusInfoFlag {
    match f {
        PackageStateFlag::Outdated => StatusInfoFlag::Outdated,
        PackageStateFlag::InstallFailed => StatusInfoFlag::InstallFailed,
        PackageStateFlag::Held => StatusInfoFlag::Held,
        PackageStateFlag::Deprecated => StatusInfoFlag::Deprecated,
        PackageStateFlag::ManifestRemoved => StatusInfoFlag::ManifestRemoved,
        PackageStateFlag::MissingDependencies => StatusInfoFlag::MissingDependencies,
    }
}

/// The status flag a package state flag stands for.
pub fn to_status_flag(f: PackageStateFlag) -> (res: StatusInfoFlag)
    ensures
        res == status_flag(f),
{
    match f {
        PackageStateFlag::Outdated => StatusInfoFlag::Outdated,
        PackageStateFlag::InstallFailed => StatusInfoFlag::InstallFailed,
        PackageStateFlag::Held => StatusInfoFlag::Held,
        PackageStateFlag::Deprecated => StatusInfoFlag::Deprecated,
        PackageStateFlag::ManifestRemoved => StatusInfoFlag::ManifestRemoved,
        PackageStateFlag::MissingDependencies => StatusInfoFlag::MissingDependencies,
    }
}

/// The package states that need attention: those with some flag.
pub open spec fn needs_attention() -> spec_fn(PackageState) -> bool {
    |s: PackageState| s.flags@.len() > 0
}

/// The entry shows the state: same name, versions and missing dependencies,
/// and the flags one for one.
pub open spec fn entry_of(e: StatusEntry, s: PackageState) -> bool {
    &&& e.name == s.name
    &&& e.installed_version == s.installed_version
    &&& e.latest_version == s.latest_version
    &&& e.missing_dependencies == s.missing_dependencies
    &&& e.flags@ == s.flags@.map_values(|f: PackageStateFlag| status_flag(f))
}

/// The entries show the states, one for one and in order.
pub open spec fn entries_of(es: Seq<StatusEntry>, ss: Seq<PackageState>) -> bool {
    &&& es.len() == ss.len()
    &&& forall|i: int| 0 <= i < ss.len() ==> entry_of(#[trigger] es[i], ss[i])
}

/// The status entries of the packages that need attention: those with some
/// flag, in the order of the states.
pub fn collect_status_entries(states: Vec<PackageState>) -> (res: Vec<StatusEntry>)
    ensures
        entries_of(res@, states@.filter(needs_attention())),
{
    let ghost ss = states@;
    let mut res: Vec<StatusEntry> = Vec::new();
    for st in it: states.into_iter()
        invariant
            it.seq() == ss,
            entries_of(res@, ss.take(it.index() as int).filter(needs_attention())),
    {
        proof {
            crate::sync::lemma_filter_take_step(ss, needs_attention(), it.index() as int);
        }
        if st.flags.len() > 0 {
            let mut flags: Vec<StatusInfoFlag> = Vec::new();
            let mut k: usize = 0;
            while k < st.flags.len()
                invariant
                    k <= st.flags@.len(),
                    flags@ == st.flags@.take(k as int).map_values(|f: PackageStateFlag| status_flag(f)),
                decreases st.flags@.len() - k,
            {
                flags.push(to_status_flag(st.flags[k]));
                assert(st.flags@.take(k + 1).map_values(|f: PackageStateFlag| status_flag(f))
                    =~= st.flags@.take(k as int).map_values(|f: PackageStateFlag| status_flag(f)).push(status_flag(st.flags@[k as int])));
                k += 1;
            }
            assert(st.flags@.take(st.flags@.len() as int) =~= st.flags@);
            res.push(
                StatusEntry {
                    name: st.name,
                    installed_version: st.installed_version,
                    latest_version: st.latest_version,
                    missing_dependencies: st.missing_dependencies,
                    flags,
                },
            );
        }
    }
    proof {
        assert(ss.take(ss.len() as int) =~= ss);
    }
    res
}

/// What the checks of the git repositories found: per repository, whether
/// it is behind its remote, `None` where it could not be read.
pub struct RepoChecks {
    /// The package manager's own repository.
    pub scoop: Option<bool>,
    /// Each bucket's repository.
    pub buckets: Vec<Option<bool>>,
}

/// Some bucket is behind its remote.
pub open spec fn any_outdated(bs: Seq<Option<bool>>) -> bool {
    exists|i: int| 0 <= i < bs.len() && bs[i] == Some(true)
}

/// Some bucket could not be read.
pub open spec fn any_failed(bs: Seq<Option<bool>>) -> bool {
    exists|i: int| 0 <= i < bs.len() && bs[i] is None
}

/// The status report: the repository checks (none when only local state is
/// asked for) and the packages that need attention, in order of name, those of equal name in the order of
/// their states.
pub fn collect_status(checks: Option<RepoChecks>, states: Vec<PackageState>) -> (res: StatusReport)
    ensures
        match checks {
            None => !res.scoop_outdated && !res.buckets_outdated && !res.git_check_failed,
            Some(c) => {
                &&& res.scoop_outdated == (c.scoop == Some(true))
                &&& res.buckets_outdated == any_outdated(c.buckets@)
                &&& res.git_check_failed == (c.scoop is None || any_failed(c.buckets@))
            },
        },
        sorted_by_name(res.entries@),
        exists|u: Seq<StatusEntry>|
            u.to_multiset() == res.entries@.to_multiset() && res.entries@ == name_sorted(u)
                && entries_of(
                u,
                states@.filter(needs_attention()),
            ),
{
    let mut scoop_outdated = false;
    let mut buckets_outdated = false;
    let mut git_check_failed = false;
    match &checks {
        None => {},
        Some(c) => {
            match c.scoop {
                Some(o) => {
                    scoop_outdated = o;
                },
                None => {
                    git_check_failed = true;
                },
            }
            let mut i: usize = 0;
            while i < c.buckets.len()
                invariant
                    i <= c.buckets@.len(),
                    buckets_outdated == any_outdated(c.buckets@.take(i as int)),
                    git_check_failed == (c.scoop is None || any_failed(c.buckets@.take(i as int))),
                decreases c.buckets@.len() - i,
            {
                let ghost t = c.buckets@.take(i as int);
                let ghost t1 = c.buckets@.take(i + 1);
                assert(t1 =~= t.push(c.buckets@[i as int]));
                match c.buckets[i] {
                    Some(o) => {
                        if o {
                            buckets_outdated = true;
                            assert(t1[i as int] == Some(true));
                        }
                    },
                    None => {
                        git_check_failed = true;
                        assert(t1[i as int] is None);
                    },
                }
                proof {
                    if any_outdated(t1) && !any_outdated(t) {
                        let k = choose|k: int| 0 <= k < t1.len() && t1[k] == Some(true);
                        if k < i {
                            assert(t[k] == Some(true));
                        }
                    }
                    if any_failed(t1) && !any_failed(t) {
                        let k = choose|k: int| 0 <= k < t1.len() && t1[k] is None;
                        if k < i {
                            assert(t[k] is None);
                        }
                    }
                    if any_outdated(t) {
                        let k = choose|k: int| 0 <= k < t.len() && t[k] == Some(true);
                        assert(t1[k] == Some(true));
                    }
                    if any_failed(t) {
                        let k = choose|k: int| 0 <= k < t.len() && t[k] is None;
                        assert(t1[k] is None);
                    }
                }
                i += 1;
            }
            assert(c.buckets@.take(c.buckets@.len() as int) =~= c.buckets@);
        },
    }
    let entries = collect_status_entries(states);
    let ghost u = entries@;
    let entries = sort_by_name(entries);
    StatusReport { scoop_outdated, buckets_outdated, git_check_failed, entries }
}

// ---------------------------------------------------------------------------
// Checking a git repository against its remote
// ---------------------------------------------------------------------------

/// The remote reference a branch is compared with: the same branch at
/// `origin`, `main` where the head has no branch name.
pub open spec fn remote_ref_name_spec(branch: Option<Seq<char>>) -> Seq<char> {
    "refs/remotes/origin/"@ + match branch {
        Some(b) => b,
        None => "main"@,
    }
}

/// The remote reference a branch is compared with.
pub fn remote_ref_name(branch: Option<&str>) -> (res: String)
    ensures
        res@ == remote_ref_name_spec(match branch {
            Some(b) => Some(b@),
            None => None,
        }),
{
    let mut r = String::from_str("refs/remotes/origin/");
    match branch {
        Some(b) => r.append(b),
        None => r.append("main"),
    }
    r
}

/// Whether a repository is behind its remote: the head and the remote
/// branch both point at commits, and not at the same one.
pub fn repo_outdated(head: Option<&[u8]>, remote: Option<&[u8]>) -> (res: bool)
    ensures
        res == (match (head, remote) {
            (Some(h), Some(r)) => h@ != r@,
            _ => false,
        }),
{
    match (head, remote) {
        (Some(h), Some(r)) => {
            if h.len() != r.len() {
                return true;
            }
            let mut i: usize = 0;
            while i < h.len()
                invariant
                    head == Some(h),
                    remote == Some(r),
                    h@.len() == r@.len(),
                    i <= h@.len(),
                    forall|k: int| 0 <= k < i ==> h@[k] == r@[k],
                decreases h@.len() - i,
            {
                if h[i] != r[i] {
                    assert(h@[i as int] != r@[i as int]);
                    return true;
                }
                i += 1;
            }
            assert(h@ =~= r@);
            false
        },
        _ => false,
    }
}

} // verus!
