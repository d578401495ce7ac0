//! The state of installed packages: versions, holds, outdated manifests and
//! missing dependencies, as listings and the status report show them.
use vstd::prelude::*;

use crate::order::{name_sorted, Named, sort_by_name, sorted_by_name};
use crate::version::{is_newer, version_newer};
use crate::text::{
    after_first, ascii_lower, ascii_lower_from, chars_of, find_first, lemma_split_once_at,
    lemma_split_once_none, owned, str_eq, to_ascii_lowercase, views,
};

verus! {

/// State of an installed package.
pub struct PackageState {
    /// Name of the package (the name of its app directory).
    pub name: String,
    /// Bucket it was installed from, `unknown` where that is not known.
    pub bucket: String,
    /// Installed version.
    pub installed_version: Option<String>,
    /// Newer version the bucket offers, where there is one.
    pub latest_version: Option<String>,
    /// The package is held.
    pub held: bool,
    /// Dependencies that are not installed.
    pub missing_dependencies: Vec<String>,
    /// What is notable about the package.
    pub flags: Vec<PackageStateFlag>,
}

/// What is notable about an installed package.
#[derive(Clone, Copy, Debug, PartialEq, Eq, Structural)]
pub enum PackageStateFlag {
    Outdated,
    InstallFailed,
    Held,
    Deprecated,
    ManifestRemoved,
    MissingDependencies,
}

impl Named for PackageState {
    open spec fn key(&self) -> Seq<char> {
        self.name@
    }

    fn name_str(&self) -> (res: &str) {
        self.name.as_str()
    }
}

/// What an installed manifest gives.
pub struct ManifestFacts {
    /// Version of the manifest.
    pub version: String,
    /// Dependencies as the manifest writes them.
    pub dependencies: Vec<String>,
}

/// What an install record gives.
pub struct InstallFacts {
    /// The package is held.
    pub held: bool,
    /// Bucket the package was installed from.
    pub bucket: Option<String>,
}

/// Where a bucket may keep the manifest of `app`, in the order they are
/// looked up, each as path components below the bucket: its `bucket`
/// directory, then its root.
pub fn manifest_locations(app: &str) -> (res: Vec<Vec<String>>)
    ensures
        res@.len() == 2,
        views(res@[0]@) == seq!["bucket"@, app@ + ".json"@],
        views(res@[1]@) == seq![app@ + ".json"@],
{
    let mut file = owned(app);
    file.append(".json");
    let mut nested: Vec<String> = Vec::new();
    nested.push(String::from_str("bucket"));
    nested.push(file.clone());
    let mut flat: Vec<String> = Vec::new();
    flat.push(file);
    let mut res: Vec<Vec<String>> = Vec::new();
    res.push(nested);
    res.push(flat);
    res
}

/// What the bucket a package was installed from says of it.
pub enum OriginLookup {
    /// The bucket is not added, or could not be read.
    BucketUnavailable,
    /// The bucket no longer has a manifest for the package.
    ManifestRemoved,
    /// The bucket's manifest could not be read.
    Unreadable,
    /// The bucket's manifest has this version.
    Found { version: String },
}

/// What the app directory of an installed package holds.
pub struct AppRecord {
    /// Name of the app directory.
    pub name: String,
    /// Both the installed manifest and the install record exist.
    pub files_present: bool,
    /// The installed manifest, `None` where it could not be read.
    pub manifest: Option<ManifestFacts>,
    /// The install record, `None` where it could not be read.
    pub install: Option<InstallFacts>,
    /// What the bucket of the install record says of the package.
    pub origin: OriginLookup,
}

// ---------------------------------------------------------------------------
// Names
// ---------------------------------------------------------------------------

/// The package name a directory or dependency names: what follows the
/// bucket in `bucket/name`, in ASCII lower case.
pub open spec fn normalized(s: Seq<char>) -> Seq<char> {
    ascii_lower(after_first(s, '/'))
}

/// The package name `s` names: what follows the bucket in `bucket/name`, in
/// ASCII lower case.
pub fn normalize_pkg_name(s: &str) -> (res: String)
    ensures
        res@ == normalized(s@),
{
    let v = chars_of(s);
    match find_first(&v, '/') {
        Some(i) => {
            proof {
                lemma_split_once_at(v@, '/', i as int);
            }
            assert(i < v.len());
            ascii_lower_from(&v, i + 1)
        },
        None => {
            proof {
                lemma_split_once_none(v@, '/');
                assert(v@.skip(0) =~= v@);
            }
            ascii_lower_from(&v, 0)
        },
    }
}

/// Dependencies that are never reported missing: tools that come along
/// with the package manager.
pub open spec fn ignored_dependency(d: Seq<char>) -> bool {
    d == "lessmsi"@ || d == "innounp"@ || d == "7zip"@ || d == "dark"@
}

/// The package names of the dependencies that are neither ignored nor
/// installed, in the order of the manifest.
pub open spec fn missing_dependencies_spec(deps: Seq<Seq<char>>, installed: Seq<Seq<char>>) -> Seq<
    Seq<char>,
> {
    deps.map_values(|d: Seq<char>| normalized(d)).filter(
        |n: Seq<char>| !ignored_dependency(n) && !installed.contains(n),
    )
}

/// Whether the list of names holds `name`.
pub fn contains_name(names: &Vec<String>, name: &String) -> (res: bool)
    ensures
        res == views(names@).contains(name@),
{
    let mut i: usize = 0;
    while i < names.len()
        invariant
            i <= names@.len(),
            forall|k: int| 0 <= k < i ==> names@[k]@ != name@,
        decreases names@.len() - i,
    {
        if names[i] == *name {
            assert(views(names@)[i as int] == name@);
            return true;
        }
        i += 1;
    }
    assert(!views(names@).contains(name@)) by {
        if views(names@).contains(name@) {
            let k = choose|k: int| 0 <= k < views(names@).len() && views(names@)[k] == name@;
            assert(names@[k]@ == name@);
        }
    }
    false
}

/// The dependencies of a manifest that are not installed, as package names
/// in the order of the manifest; the tools that come along with the package
/// manager are never reported.
pub fn detect_missing_dependencies(deps: &Vec<String>, installed: &Vec<String>) -> (res: Vec<String>)
    ensures
        views(res@) == missing_dependencies_spec(views(deps@), views(installed@)),
{
    let ghost ns = views(deps@).map_values(|d: Seq<char>| normalized(d));
    let ghost pred = |n: Seq<char>| !ignored_dependency(n) && !views(installed@).contains(n);
    let mut res: Vec<String> = Vec::new();
    let mut i: usize = 0;
    while i < deps.len()
        invariant
            i <= deps@.len(),
            ns == views(deps@).map_values(|d: Seq<char>| normalized(d)),
            pred == (|n: Seq<char>| !ignored_dependency(n) && !views(installed@).contains(n)),
            views(res@) == ns.take(i as int).filter(pred),
        decreases deps@.len() - i,
    {
        proof {
            crate::sync::lemma_filter_take_step(ns, pred, i as int);
        }
        let n = normalize_pkg_name(deps[i].as_str());
        let s = n.as_str();
        let ignored = str_eq(s, "lessmsi") || str_eq(s, "innounp") || str_eq(s, "7zip") || str_eq(s, "dark");
        let ghost prev = res@;
        if !ignored && !contains_name(installed, &n) {
            res.push(n);
            assert(views(res@) =~= views(prev).push(ns[i as int]));
        }
        i += 1;
    }
    proof {
        assert(ns.take(deps@.len() as int) =~= ns);
    }
    res
}

// ---------------------------------------------------------------------------
// The state of one package
// ---------------------------------------------------------------------------

/// The flags of an installed package, in the order they are found: a
/// failed install alone; else held, then outdated (the bucket offers a newer
/// version) or manifest removed, then missing dependencies.
pub open spec fn state_flags(rec: AppRecord, installed: Seq<Seq<char>>) -> Seq<PackageStateFlag> {
    if !rec.files_present {
        seq![PackageStateFlag::InstallFailed]
    } else {
        let m = rec.manifest.unwrap();
        let held = match rec.install {
            Some(i) => i.held,
            None => false,
        };
        let s1 = if held {
            seq![PackageStateFlag::Held]
        } else {
            Seq::empty()
        };
        let s2 = match rec.install {
            Some(i) => match i.bucket {
                Some(_) => match rec.origin {
                    OriginLookup::ManifestRemoved => seq![PackageStateFlag::ManifestRemoved],
                    OriginLookup::Found { version } => if is_newer(version@, m.version@) {
                        seq![PackageStateFlag::Outdated]
                    } else {
                        Seq::empty()
                    },
                    _ => Seq::empty(),
                },
                None => Seq::empty(),
            },
            None => Seq::empty(),
        };
        let s3 = if missing_dependencies_spec(views(m.dependencies@), installed).len() > 0 {
            seq![PackageStateFlag::MissingDependencies]
        } else {
            Seq::empty()
        };
        s1 + s2 + s3
    }
}

/// The state of an installed package is known: its files are missing, or
/// its manifest could be read.
pub open spec fn state_known(rec: AppRecord) -> bool {
    !rec.files_present || rec.manifest is Some
}

/// The state of an installed package, given the names of all installed
/// packages.
pub open spec fn state_matches(st: PackageState, rec: AppRecord, installed: Seq<Seq<char>>) -> bool {
    &&& st.name@ == rec.name@
    &&& st.flags@ == state_flags(rec, installed)
    &&& if !rec.files_present {
        &&& st.bucket@ == "unknown"@
        &&& st.installed_version is None
        &&& st.latest_version is None
        &&& !st.held
        &&& st.missing_dependencies@.len() == 0
    } else {
        let m = rec.manifest.unwrap();
        &&& st.installed_version matches Some(v) && v@ == m.version@
        &&& st.held == (rec.install matches Some(i) && i.held)
        &&& st.bucket@ == (match rec.install {
            Some(i) => match i.bucket {
                Some(b) => b@,
                None => "unknown"@,
            },
            None => "unknown"@,
        })
        &&& match (rec.install, rec.origin) {
            (Some(i), OriginLookup::Found { version }) => if i.bucket is Some && is_newer(version@, m.version@) {
                st.latest_version matches Some(l) && l@ == version@
            } else {
                st.latest_version is None
            },
            _ => st.latest_version is None,
        }
        &&& views(st.missing_dependencies@) == missing_dependencies_spec(
            views(m.dependencies@),
            installed,
        )
    }
}

/// The state of one installed package, given the names of all installed
/// packages; `None` where its manifest could not be read.
pub fn collect_package_state(rec: &AppRecord, installed: &Vec<String>) -> (res: Option<PackageState>)
    ensures
        match res {
            Some(st) => state_known(*rec) && state_matches(st, *rec, views(installed@)),
            None => !state_known(*rec),
        },
{
    let mut flags: Vec<PackageStateFlag> = Vec::new();
    if !rec.files_present {
        flags.push(PackageStateFlag::InstallFailed);
        assert(flags@ =~= seq![PackageStateFlag::InstallFailed]);
        return Some(
            PackageState {
                name: rec.name.clone(),
                bucket: String::from_str("unknown"),
                installed_version: None,
                latest_version: None,
                held: false,
                missing_dependencies: Vec::new(),
                flags,
            },
        );
    }
    let m = match &rec.manifest {
        Some(m) => m,
        None => {
            return None;
        },
    };
    let mut bucket = String::from_str("unknown");
    let mut held = false;
    let mut latest: Option<String> = None;
    match &rec.install {
        Some(info) => {
            if info.held {
                held = true;
                flags.push(PackageStateFlag::Held);
            }
            match &info.bucket {
                Some(b) => {
                    bucket = b.clone();
                    match &rec.origin {
                        OriginLookup::ManifestRemoved => {
                            flags.push(PackageStateFlag::ManifestRemoved);
                        },
                        OriginLookup::Found { version } => {
                            if version_newer(version.as_str(), m.version.as_str()) {
                                latest = Some(version.clone());
                                flags.push(PackageStateFlag::Outdated);
                            }
                        },
                        _ => {},
                    }
                },
                None => {},
            }
        },
        None => {},
    }
    let missing = detect_missing_dependencies(&m.dependencies, installed);
    if missing.len() > 0 {
        flags.push(PackageStateFlag::MissingDependencies);
    }
    let ghost want = state_flags(*rec, views(installed@));
    assert(flags@ =~= want);
    Some(
        PackageState {
            name: rec.name.clone(),
            bucket,
            installed_version: Some(m.version.clone()),
            latest_version: latest,
            held,
            missing_dependencies: missing,
            flags,
        },
    )
}

// ---------------------------------------------------------------------------
// The states of all installed packages
// ---------------------------------------------------------------------------

/// The directory of the package manager itself, which is no package.
pub open spec fn is_self_dir(name: Seq<char>) -> bool {
    ascii_lower(name) == "scoop"@
}

/// The names every app directory stands for, but the package manager's.
pub open spec fn installed_names(recs: Seq<AppRecord>) -> Seq<Seq<char>> {
    recs.map_values(|r: AppRecord| normalized(r.name@)).filter(|n: Seq<char>| n != "scoop"@)
}

/// The app directories whose state is listed: packages whose state is
/// known, in order.
pub open spec fn listed_records(recs: Seq<AppRecord>) -> Seq<AppRecord> {
    recs.filter(|r: AppRecord| !is_self_dir(r.name@) && state_known(r))
}

/// The states are those of the records, one for one and in order.
pub open spec fn states_of(states: Seq<PackageState>, recs: Seq<AppRecord>, installed: Seq<Seq<char>>) -> bool {
    &&& states.len() == recs.len()
    &&& forall|i: int| 0 <= i < recs.len() ==> state_matches(#[trigger] states[i], recs[i], installed)
}

/// The names all app directories stand for, but the package manager's.
pub fn collect_installed_names(recs: &Vec<AppRecord>) -> (res: Vec<String>)
    ensures
        views(res@) == installed_names(recs@),
{
    let ghost ns = recs@.map_values(|r: AppRecord| normalized(r.name@));
    let ghost pred = |n: Seq<char>| n != "scoop"@;
    let mut res: Vec<String> = Vec::new();
    let mut i: usize = 0;
    while i < recs.len()
        invariant
            i <= recs@.len(),
            ns == recs@.map_values(|r: AppRecord| normalized(r.name@)),
            pred == (|n: Seq<char>| n != "scoop"@),
            views(res@) == ns.take(i as int).filter(pred),
        decreases recs@.len() - i,
    {
        proof {
            crate::sync::lemma_filter_take_step(ns, pred, i as int);
        }
        let n = normalize_pkg_name(recs[i].name.as_str());
        let ghost prev = res@;
        if !str_eq(n.as_str(), "scoop") {
            res.push(n);
            assert(views(res@) =~= views(prev).push(ns[i as int]));
        }
        i += 1;
    }
    proof {
        assert(ns.take(recs@.len() as int) =~= ns);
    }
    res
}

/// The states of the listed app directories, in the order of the records.
pub fn package_states_in_order(recs: &Vec<AppRecord>, installed: &Vec<String>) -> (res: Vec<PackageState>)
    ensures
        states_of(res@, listed_records(recs@), views(installed@)),
{
    let ghost pred = |r: AppRecord| !is_self_dir(r.name@) && state_known(r);
    let mut res: Vec<PackageState> = Vec::new();
    let mut i: usize = 0;
    while i < recs.len()
        invariant
            i <= recs@.len(),
            pred == (|r: AppRecord| !is_self_dir(r.name@) && state_known(r)),
            states_of(res@, recs@.take(i as int).filter(pred), views(installed@)),
        decreases recs@.len() - i,
    {
        proof {
            crate::sync::lemma_filter_take_step(recs@, pred, i as int);
        }
        let lower = to_ascii_lowercase(recs[i].name.as_str());
        if !str_eq(lower.as_str(), "scoop") {
            match collect_package_state(&recs[i], installed) {
                Some(st) => {
                    res.push(st);
                },
                None => {},
            }
        }
        i += 1;
    }
    proof {
        assert(recs@.take(recs@.len() as int) =~= recs@);
    }
    res
}

/// The states of all installed packages, in order of name (those of equal
/// name in the order of their records): every app
/// directory but the package manager's own, except those whose manifest
/// could not be read.
pub fn collect_package_states(recs: &Vec<AppRecord>) -> (res: Vec<PackageState>)
    ensures
        sorted_by_name(res@),
        exists|u: Seq<PackageState>|
            u.to_multiset() == res@.to_multiset() && res@ == name_sorted(u) && states_of(
                u,
                listed_records(recs@),
                installed_names(recs@),
            ),
{
    let installed = collect_installed_names(recs);
    let states = package_states_in_order(recs, &installed);
    let ghost u = states@;
    let res = sort_by_name(states);
    assert(u.to_multiset() == res@.to_multiset() && res@ == name_sorted(u) && states_of(u, listed_records(recs@), installed_names(recs@)));
    res
}

} // verus!
