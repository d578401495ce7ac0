//! Package sync: the options of an install, upgrade or removal, the
//! transaction that lists what a sync will do, and the decisions that build it.
use vstd::prelude::*;
use once_cell::unsync::OnceCell;

use crate::error::{Error, HashMismatchContext};
use crate::text::{split_once, after_first, split_once_at, owned, suffix_after_first, join, views, join_strings, before_first, after_last, prefix_before, suffix_after_last, str_eq};

verus! {

/// Options that may be used to tweak behavior of package sync operation.
#[derive(Clone, Copy, Debug, Eq, Hash, PartialEq, Structural)]
#[non_exhaustive]
pub enum SyncOption {
    /// Assume YES on all prompts; this also suppresses the candidate prompt
    /// and the calculation of the download size.
    AssumeYes,
    /// Download package only; the transaction stops after the download.
    DownloadOnly,
    /// Force operations on held packages. Held packages are ignored during
    /// the replace, upgrade or uninstall operations by default.
    EscapeHold,
    /// Ignore local cache and force package download.
    IgnoreCache,
    /// Ignore transaction failure and go on with the remaining packages.
    IgnoreFailure,
    /// Do not install dependencies.
    NoDependencies,
    /// Stop checking hash of downloaded packages.
    NoHashCheck,
    /// Do not upgrade packages.
    NoUpgrade,
    /// Do not replace packages (an installed package proposed again from a
    /// different bucket).
    NoReplace,
    /// Offline mode: use the local cache only, no network access.
    Offline,
    /// Upgrade packages only.
    OnlyUpgrade,
    /// Uninstall packages.
    Remove,
    /// Purge uninstall: also remove the persistent data of the packages.
    Purge,
    /// Cascade uninstall: also remove dependencies no other package needs.
    Cascade,
    /// Disable the check for installed packages that depend on a package
    /// proposed for removal.
    NoDependentCheck,
}

/// Whether `options` holds `opt`.
pub fn has_option(options: &[SyncOption], opt: SyncOption) -> (res: bool)
    ensures
        res == options@.contains(opt),
{
    let mut i: usize = 0;
    while i < options.len()
        invariant
            i <= options@.len(),
            forall|j: int| 0 <= j < i ==> options@[j] != opt,
        decreases options@.len() - i,
    {
        if options[i] == opt {
            return true;
        }
        i += 1;
    }
    false
}

/// What the sync logic reads of a package: where it comes from, its
/// versions, and its relation to what is installed.
pub struct Package {
    /// Name of the package.
    pub name: String,
    /// Bucket the manifest of the package comes from.
    pub bucket: String,
    /// Version the manifest proposes.
    pub version: String,
    /// Version installed on the system, if any.
    pub installed_version: Option<String>,
    /// The package is installed, from this or from another bucket.
    pub installed: bool,
    /// The package is installed from this very bucket.
    pub strictly_installed: bool,
    /// The package is held: it is kept out of upgrades and removals.
    pub held: bool,
    /// A newer version than the installed one is available.
    pub upgradable_version: Option<String>,
    /// Dependencies as the manifest writes them (`name` or `bucket/name`).
    pub dependencies: Vec<String>,
    /// The manifest has an uninstall script.
    pub has_uninstall_script: bool,
}

/// Total download size of a transaction.
#[derive(Clone, Copy, Debug, PartialEq, Eq, Structural)]
pub struct DownloadSize {
    /// Total number of bytes to download.
    pub total: u64,
    /// Some sizes were estimated because the server did not give them.
    pub estimated: bool,
}

// ---------------------------------------------------------------------------
// once_cell::unsync::OnceCell, as the transaction uses it
// ---------------------------------------------------------------------------

#[verifier::external_type_specification]
#[verifier::external_body]
#[verifier::reject_recursive_types(T)]
pub struct ExOnceCell<T>(OnceCell<T>);

/// What a cell of packages holds: `None` while it is empty.
pub uninterp spec fn package_cell(cell: OnceCell<Vec<Package>>) -> Option<Seq<Package>>;

/// What a cell of download sizes holds: `None` while it is empty.
pub uninterp spec fn size_cell(cell: OnceCell<DownloadSize>) -> Option<DownloadSize>;

/// `OnceCell::new` for packages: the cell starts empty.
#[verifier::external_body]
fn package_cell_new() -> (cell: OnceCell<Vec<Package>>)
    ensures
        package_cell(cell) is None,
{
    OnceCell::new()
}

/// `OnceCell::set` for packages: an empty cell takes the value and `Ok`
/// comes back; a full cell is left as it was and the value comes back in
/// `Err`.
#[verifier::external_body]
fn package_cell_set(cell: &mut OnceCell<Vec<Package>>, value: Vec<Package>) -> (res: Result<(), Vec<Package>>)
    ensures
        package_cell(*old(cell)) is None ==> res is Ok,
        package_cell(*old(cell)) is None ==> package_cell(*final(cell)) == Some(value@),
        package_cell(*old(cell)) is Some ==> res is Err,
        package_cell(*old(cell)) is Some ==> package_cell(*final(cell)) == package_cell(*old(cell)),
        res matches Err(v) ==> v == value,
{
    cell.set(value)
}

/// `OnceCell::get` for packages: the value of a full cell, `None` for an
/// empty one.
#[verifier::external_body]
fn package_cell_get(cell: &OnceCell<Vec<Package>>) -> (res: Option<&Vec<Package>>)
    ensures
        match res {
            Some(v) => package_cell(*cell) == Some(v@),
            None => package_cell(*cell) is None,
        },
{
    cell.get()
}

/// `OnceCell::new` for download sizes: the cell starts empty.
#[verifier::external_body]
fn size_cell_new() -> (cell: OnceCell<DownloadSize>)
    ensures
        size_cell(cell) is None,
{
    OnceCell::new()
}

/// `OnceCell::set` for download sizes: an empty cell takes the value and
/// `Ok` comes back; a full cell is left as it was and the value comes back
/// in `Err`.
#[verifier::external_body]
fn size_cell_set(cell: &mut OnceCell<DownloadSize>, value: DownloadSize) -> (res: Result<(), DownloadSize>)
    ensures
        size_cell(*old(cell)) is None ==> res is Ok,
        size_cell(*old(cell)) is None ==> size_cell(*final(cell)) == Some(value),
        size_cell(*old(cell)) is Some ==> res is Err,
        size_cell(*old(cell)) is Some ==> size_cell(*final(cell)) == size_cell(*old(cell)),
        res matches Err(v) ==> v == value,
{
    cell.set(value)
}

/// `OnceCell::get` for download sizes: the value of a full cell, `None`
/// for an empty one.
#[verifier::external_body]
fn size_cell_get(cell: &OnceCell<DownloadSize>) -> (res: Option<&DownloadSize>)
    ensures
        match res {
            Some(v) => size_cell(*cell) == Some(*v),
            None => size_cell(*cell) is None,
        },
{
    cell.get()
}

// ---------------------------------------------------------------------------
// Transaction
// ---------------------------------------------------------------------------

/// Transaction of sync operation: the packages that will be installed,
/// upgraded, replaced or removed, and the total download size. Each part is
/// set at most once; a later set leaves it as it was.
pub struct Transaction {
    install: OnceCell<Vec<Package>>,
    upgrade: OnceCell<Vec<Package>>,
    replace: OnceCell<Vec<Package>>,
    remove: OnceCell<Vec<Package>>,
    download_size: OnceCell<DownloadSize>,
}

impl Transaction {
    /// Packages that will be installed, once set.
    pub closed spec fn installs(&self) -> Option<Seq<Package>> {
        package_cell(self.install)
    }

    /// Packages that will be upgraded, once set.
    pub closed spec fn upgrades(&self) -> Option<Seq<Package>> {
        package_cell(self.upgrade)
    }

    /// Packages that will be replaced, once set.
    pub closed spec fn replaces(&self) -> Option<Seq<Package>> {
        package_cell(self.replace)
    }

    /// Packages that will be removed, once set.
    pub closed spec fn removes(&self) -> Option<Seq<Package>> {
        package_cell(self.remove)
    }

    /// Total download size, once set.
    pub closed spec fn size(&self) -> Option<DownloadSize> {
        size_cell(self.download_size)
    }

    /// A transaction with nothing set.
    pub fn new() -> (t: Transaction)
        ensures
            t.installs() is None,
            t.upgrades() is None,
            t.replaces() is None,
            t.removes() is None,
            t.size() is None,
    {
        Transaction {
            install: package_cell_new(),
            upgrade: package_cell_new(),
            replace: package_cell_new(),
            remove: package_cell_new(),
            download_size: size_cell_new(),
        }
    }

    /// Sets the packages to install, unless they are set already.
    pub fn set_install(&mut self, packages: Vec<Package>)
        ensures
            final(self).installs() == (match old(self).installs() {
                Some(s) => Some(s),
                None => Some(packages@),
            }),
            final(self).upgrades() == old(self).upgrades(),
            final(self).replaces() == old(self).replaces(),
            final(self).removes() == old(self).removes(),
            final(self).size() == old(self).size(),
    {
        let _ = package_cell_set(&mut self.install, packages);
    }

    /// Sets the packages to upgrade, unless they are set already.
    pub fn set_upgrade(&mut self, packages: Vec<Package>)
        ensures
            final(self).upgrades() == (match old(self).upgrades() {
                Some(s) => Some(s),
                None => Some(packages@),
            }),
            final(self).installs() == old(self).installs(),
            final(self).replaces() == old(self).replaces(),
            final(self).removes() == old(self).removes(),
            final(self).size() == old(self).size(),
    {
        let _ = package_cell_set(&mut self.upgrade, packages);
    }

    /// Sets the packages to replace, unless they are set already.
    pub fn set_replace(&mut self, packages: Vec<Package>)
        ensures
            final(self).replaces() == (match old(self).replaces() {
                Some(s) => Some(s),
                None => Some(packages@),
            }),
            final(self).installs() == old(self).installs(),
            final(self).upgrades() == old(self).upgrades(),
            final(self).removes() == old(self).removes(),
            final(self).size() == old(self).size(),
    {
        let _ = package_cell_set(&mut self.replace, packages);
    }

    /// Sets the packages to remove, unless they are set already.
    pub fn set_remove(&mut self, packages: Vec<Package>)
        ensures
            final(self).removes() == (match old(self).removes() {
                Some(s) => Some(s),
                None => Some(packages@),
            }),
            final(self).installs() == old(self).installs(),
            final(self).upgrades() == old(self).upgrades(),
            final(self).replaces() == old(self).replaces(),
            final(self).size() == old(self).size(),
    {
        let _ = package_cell_set(&mut self.remove, packages);
    }

    /// Sets the download size unless it is set already; whether it was set
    /// by this call.
    pub fn set_download_size(&mut self, download_size: DownloadSize) -> (res: bool)
        ensures
            res == (old(self).size() is None),
            final(self).size() == (match old(self).size() {
                Some(s) => Some(s),
                None => Some(download_size),
            }),
            final(self).installs() == old(self).installs(),
            final(self).upgrades() == old(self).upgrades(),
            final(self).replaces() == old(self).replaces(),
            final(self).removes() == old(self).removes(),
    {
        let r = size_cell_set(&mut self.download_size, download_size);
        r.is_ok()
    }

    /// Get packages that will be installed with the transaction, or `None`
    /// if no packages will be installed.
    pub fn install_view(&self) -> (res: Option<&Vec<Package>>)
        ensures
            match res {
                Some(v) => self.installs() == Some(v@),
                None => self.installs() is None,
            },
    {
        package_cell_get(&self.install)
    }

    /// Get packages that will be upgraded with the transaction, or `None`
    /// if no packages will be upgraded.
    pub fn upgrade_view(&self) -> (res: Option<&Vec<Package>>)
        ensures
            match res {
                Some(v) => self.upgrades() == Some(v@),
                None => self.upgrades() is None,
            },
    {
        package_cell_get(&self.upgrade)
    }

    /// Get packages that will be replaced with the transaction, or `None`
    /// if no packages will be replaced.
    pub fn replace_view(&self) -> (res: Option<&Vec<Package>>)
        ensures
            match res {
                Some(v) => self.replaces() == Some(v@),
                None => self.replaces() is None,
            },
    {
        package_cell_get(&self.replace)
    }

    /// Get packages that will be removed with the transaction, or `None`
    /// if no packages will be removed.
    pub fn remove_view(&self) -> (res: Option<&Vec<Package>>)
        ensures
            match res {
                Some(v) => self.removes() == Some(v@),
                None => self.removes() is None,
            },
    {
        package_cell_get(&self.remove)
    }

    /// Get the total download size of the transaction, once it is set.
    pub fn download_size(&self) -> (res: Option<&DownloadSize>)
        ensures
            match res {
                Some(v) => self.size() == Some(*v),
                None => self.size() is None,
            },
    {
        size_cell_get(&self.download_size)
    }
}

// ---------------------------------------------------------------------------
// Sorting packages into the parts of a transaction
// ---------------------------------------------------------------------------

/// Packages that are not installed at all: they will be installed.
pub open spec fn installable() -> spec_fn(Package) -> bool {
    |p: Package| !p.installed
}

/// Packages installed from their own bucket with a newer version available,
/// held ones only when holds are escaped: they will be upgraded.
pub open spec fn upgradable(escape_hold: bool) -> spec_fn(Package) -> bool {
    |p: Package|
        p.installed && p.strictly_installed && p.upgradable_version is Some && (escape_hold
            || !p.held)
}

/// Packages installed from another bucket, held ones only when holds are
/// escaped: they will be replaced.
pub open spec fn replaceable(escape_hold: bool) -> spec_fn(Package) -> bool {
    |p: Package| p.installed && !p.strictly_installed && (escape_hold || !p.held)
}

/// The packages a sync installs: those not installed, unless only upgrades
/// are asked for; `None` where there are none.
pub open spec fn planned_installs(pkgs: Seq<Package>, options: Seq<SyncOption>) -> Option<Seq<Package>> {
    let s = pkgs.filter(installable());
    if !options.contains(SyncOption::OnlyUpgrade) && s.len() > 0 {
        Some(s)
    } else {
        None
    }
}

/// The packages a sync upgrades: upgradable ones, held ones only with
/// `EscapeHold`, none with `NoUpgrade`; `None` where there are none.
pub open spec fn planned_upgrades(pkgs: Seq<Package>, options: Seq<SyncOption>) -> Option<Seq<Package>> {
    let s = pkgs.filter(upgradable(options.contains(SyncOption::EscapeHold)));
    if !options.contains(SyncOption::NoUpgrade) && s.len() > 0 {
        Some(s)
    } else {
        None
    }
}

/// The packages a sync replaces: those installed from another bucket, held
/// ones only with `EscapeHold`, none with `NoReplace`; `None` where there
/// are none.
pub open spec fn planned_replaces(pkgs: Seq<Package>, options: Seq<SyncOption>) -> Option<Seq<Package>> {
    let s = pkgs.filter(replaceable(options.contains(SyncOption::EscapeHold)));
    if !options.contains(SyncOption::NoReplace) && s.len() > 0 {
        Some(s)
    } else {
        None
    }
}

/// Filtering a prefix one element longer.
pub proof fn lemma_filter_take_step<A>(s: Seq<A>, f: spec_fn(A) -> bool, i: int)
    requires
        0 <= i < s.len(),
    ensures
        s.take(i + 1).filter(f) == (if f(s[i]) {
            s.take(i).filter(f).push(s[i])
        } else {
            s.take(i).filter(f)
        }),
{
    reveal_with_fuel(Seq::<_>::filter, 1);
    assert(s.take(i + 1).drop_last() =~= s.take(i));
    assert(s.take(i + 1).last() == s[i]);
}

/// Sorts the proposed packages into a transaction: installs, upgrades and
/// replaces as the options allow; nothing is removed and no size is set.
pub fn plan_sync(packages: Vec<Package>, options: &[SyncOption]) -> (t: Transaction)
    ensures
        t.installs() == planned_installs(packages@, options@),
        t.upgrades() == planned_upgrades(packages@, options@),
        t.replaces() == planned_replaces(packages@, options@),
        t.removes() is None,
        t.size() is None,
{
    let only_upgrade = has_option(options, SyncOption::OnlyUpgrade);
    let escape_hold = has_option(options, SyncOption::EscapeHold);
    let no_upgrade = has_option(options, SyncOption::NoUpgrade);
    let no_replace = has_option(options, SyncOption::NoReplace);
    let ghost ps = packages@;
    let mut installs: Vec<Package> = Vec::new();
    let mut upgrades: Vec<Package> = Vec::new();
    let mut replaces: Vec<Package> = Vec::new();
    for p in it: packages.into_iter()
        invariant
            it.seq() == ps,
            installs@ == ps.take(it.index() as int).filter(installable()),
            upgrades@ == ps.take(it.index() as int).filter(upgradable(escape_hold)),
            replaces@ == ps.take(it.index() as int).filter(replaceable(escape_hold)),
    {
        let ghost i = it.index() as int;
        proof {
            lemma_filter_take_step(ps, installable(), i);
            lemma_filter_take_step(ps, upgradable(escape_hold), i);
            lemma_filter_take_step(ps, replaceable(escape_hold), i);
        }
        if !p.installed {
            installs.push(p);
        } else if p.strictly_installed {
            if p.upgradable_version.is_some() && (escape_hold || !p.held) {
                upgrades.push(p);
            }
        } else if escape_hold || !p.held {
            replaces.push(p);
        }
    }
    proof {
        assert(ps.take(ps.len() as int) =~= ps);
    }
    let mut t = Transaction::new();
    if !only_upgrade && installs.len() > 0 {
        t.set_install(installs);
    }
    if !no_upgrade && upgrades.len() > 0 {
        t.set_upgrade(upgrades);
    }
    if !no_replace && replaces.len() > 0 {
        t.set_replace(replaces);
    }
    t
}

impl Default for Transaction {
    /// A transaction with nothing set.
    fn default() -> (t: Self)
        ensures
            t.installs() is None,
            t.upgrades() is None,
            t.replaces() is None,
            t.removes() is None,
            t.size() is None,
    {
        Self::new()
    }
}

impl Transaction {
    /// Packages that will be added to the system: installs, then upgrades,
    /// then replaces.
    pub open spec fn added(&self) -> Seq<Package> {
        flat(self.installs()) + flat(self.upgrades()) + flat(self.replaces())
    }

    /// References to the packages that will be added to the system:
    /// installs, then upgrades, then replaces.
    pub fn add_view(&self) -> (res: Vec<&Package>)
        ensures
            res@.len() == self.added().len(),
            forall|i: int| 0 <= i < res@.len() ==> *res@[i] == self.added()[i],
    {
        let mut res: Vec<&Package> = Vec::new();
        let parts = [self.install_view(), self.upgrade_view(), self.replace_view()];
        let ghost goal = self.added();
        let ghost segs = seq![flat(self.installs()), flat(self.upgrades()), flat(self.replaces())];
        let mut k: usize = 0;
        while k < 3
            invariant
                0 <= k <= 3,
                parts@.len() == 3,
                forall|m: int| 0 <= m < 3 ==> match #[trigger] parts@[m] {
                    Some(v) => v@ == segs[m],
                    None => segs[m] == Seq::<Package>::empty(),
                },
                goal == segs[0] + segs[1] + segs[2],
                res@.len() == prefix_len(segs, k as int),
                forall|i: int| 0 <= i < res@.len() ==> *res@[i] == goal[i],
            decreases 3 - k,
        {
            if let Some(v) = parts[k] {
                let mut i: usize = 0;
                while i < v.len()
                    invariant
                        0 <= k < 3,
                        v@ == segs[k as int],
                        goal == segs[0] + segs[1] + segs[2],
                        i <= v.len(),
                        res@.len() == prefix_len(segs, k as int) + i,
                        forall|j: int| 0 <= j < res@.len() ==> *res@[j] == goal[j],
                    decreases v.len() - i,
                {
                    res.push(&v[i]);
                    i += 1;
                }
            }
            k += 1;
        }
        res
    }
}

/// The packages of a part of a transaction, none where it is not set.
pub open spec fn flat(o: Option<Seq<Package>>) -> Seq<Package> {
    match o {
        Some(s) => s,
        None => Seq::empty(),
    }
}

/// Total length of the first `k` of three segments.
pub open spec fn prefix_len(segs: Seq<Seq<Package>>, k: int) -> int {
    if k <= 0 {
        0
    } else if k == 1 {
        segs[0].len() as int
    } else if k == 2 {
        (segs[0].len() + segs[1].len()) as int
    } else {
        (segs[0].len() + segs[1].len() + segs[2].len()) as int
    }
}

// ---------------------------------------------------------------------------
// Choosing the packages a query names
// ---------------------------------------------------------------------------

/// A query `bucket/name` split into its bucket and name; a query without `/`
/// has an empty bucket and names any bucket.
pub open spec fn query_parts(q: Seq<char>) -> (Seq<char>, Seq<char>) {
    match split_once(q, '/') {
        Some(parts) => parts,
        None => (Seq::empty(), q),
    }
}

/// The package is one the query names: same name, and same bucket where the
/// query gives one.
pub open spec fn query_matches(q: Seq<char>, p: Package) -> bool {
    let parts = query_parts(q);
    (parts.0.len() == 0 || p.bucket@ == parts.0) && p.name@ == parts.1
}

/// Positions, in order, of the packages of `pkgs` that the query names.
pub open spec fn matching(q: Seq<char>, pkgs: Seq<Package>) -> Seq<usize> {
    Seq::new(pkgs.len(), |i: int| i as usize).filter(|i: usize| query_matches(q, pkgs[i as int]))
}

/// Splits a query into its bucket and name.
pub fn parse_query(query: &str) -> (res: (String, String))
    ensures
        res.0@ == query_parts(query@).0,
        res.1@ == query_parts(query@).1,
{
    match split_once_at(query, '/') {
        Some(parts) => parts,
        None => (String::new(), owned(query)),
    }
}

/// Whether the query names the package.
pub fn matches_query(query_bucket: &String, query_name: &String, p: &Package) -> (res: bool)
    ensures
        res == ((query_bucket@.len() == 0 || p.bucket@ == query_bucket@) && p.name@ == query_name@),
{
    (query_bucket.as_str().is_empty() || p.bucket == *query_bucket) && p.name == *query_name
}

/// Positions, in order, of the packages the query names.
pub fn find_matching(query: &str, pkgs: &Vec<Package>) -> (res: Vec<usize>)
    ensures
        res@ == matching(query@, pkgs@),
        forall|k: int| 0 <= k < res@.len() ==> res@[k] < pkgs@.len(),
{
    let (qb, qn) = parse_query(query);
    let ghost idx = Seq::new(pkgs@.len(), |i: int| i as usize);
    let ghost pred = |i: usize| query_matches(query@, pkgs@[i as int]);
    let mut res: Vec<usize> = Vec::new();
    let mut i: usize = 0;
    while i < pkgs.len()
        invariant
            i <= pkgs@.len(),
            idx == Seq::new(pkgs@.len(), |i: int| i as usize),
            pred == (|i: usize| query_matches(query@, pkgs@[i as int])),
            qb@ == query_parts(query@).0,
            qn@ == query_parts(query@).1,
            res@ == idx.take(i as int).filter(pred),
            forall|k: int| 0 <= k < res@.len() ==> res@[k] < i,
        decreases pkgs@.len() - i,
    {
        proof {
            lemma_filter_take_step(idx, pred, i as int);
        }
        if matches_query(&qb, &qn, &pkgs[i]) {
            res.push(i);
        }
        i += 1;
    }
    proof {
        assert(idx.take(pkgs@.len() as int) =~= idx);
    }
    res
}

/// What a query of an install resolves to.
pub enum QuerySelection {
    /// No package matches the query.
    NotFound,
    /// The query names held packages and holds are not escaped: it is
    /// skipped.
    Held,
    /// The query names exactly this package.
    Chosen(usize),
    /// The query names several packages, none held or holds escaped: one of
    /// them is to be chosen.
    Candidates(Vec<usize>),
}

/// Some of the packages at the positions `m` are held.
pub open spec fn any_held(m: Seq<usize>, pkgs: Seq<Package>) -> bool {
    exists|j: int| 0 <= j < m.len() && (#[trigger] pkgs[m[j] as int]).held
}

/// What an install query resolves to among the available packages: 0 not
/// found, 1 held, 2 one package, 3 several candidates.
pub open spec fn query_selection_spec(m: Seq<usize>, pkgs: Seq<Package>, escape_hold: bool) -> int {
    if m.len() == 0 {
        0
    } else if !escape_hold && any_held(m, pkgs) {
        1
    } else if m.len() == 1 {
        2
    } else {
        3
    }
}

/// Resolves an install query among the available packages: not found, held
/// and skipped, exactly one package, or several candidates (in order).
pub fn resolve_query(query: &str, synced: &Vec<Package>, escape_hold: bool) -> (res: QuerySelection)
    ensures
        ({
            let m = matching(query@, synced@);
            let k = query_selection_spec(m, synced@, escape_hold);
            match res {
                QuerySelection::NotFound => k == 0,
                QuerySelection::Held => k == 1,
                QuerySelection::Chosen(i) => k == 2 && i == m[0],
                QuerySelection::Candidates(v) => k == 3 && v@ == m,
            }
        }),
{
    let m = find_matching(query, synced);
    if m.len() == 0 {
        return QuerySelection::NotFound;
    }
    if !escape_hold {
        let mut j: usize = 0;
        while j < m.len()
            invariant
                j <= m@.len(),
                !escape_hold,
                m@ == matching(query@, synced@),
                forall|k: int| 0 <= k < m@.len() ==> m@[k] < synced@.len(),
                forall|k: int| 0 <= k < j ==> !synced@[m@[k] as int].held,
            decreases m@.len() - j,
        {
            if synced[m[j]].held {
                assert(synced@[m@[j as int] as int].held);
                assert(any_held(m@, synced@));
                return QuerySelection::Held;
            }
            j += 1;
        }
    }
    if m.len() == 1 {
        QuerySelection::Chosen(m[0])
    } else {
        QuerySelection::Candidates(m)
    }
}

/// Whether any available package is named by the query.
pub fn query_exists(query: &str, synced: &Vec<Package>) -> (res: bool)
    ensures
        res == (matching(query@, synced@).len() > 0),
{
    find_matching(query, synced).len() > 0
}

/// Adds a chosen package to the selection unless it is there already.
pub fn push_unique(selected: &mut Vec<usize>, idx: usize)
    ensures
        final(selected)@ == (if old(selected)@.contains(idx) {
            old(selected)@
        } else {
            old(selected)@.push(idx)
        }),
{
    let mut j: usize = 0;
    while j < selected.len()
        invariant
            j <= selected@.len(),
            forall|k: int| 0 <= k < j ==> selected@[k] != idx,
        decreases selected@.len() - j,
    {
        if selected[j] == idx {
            return;
        }
        j += 1;
    }
    selected.push(idx);
}

/// `sel` with `i` added at the end, unless it holds `i` already.
pub open spec fn with_unique(sel: Seq<usize>, i: usize) -> Seq<usize> {
    if sel.contains(i) {
        sel
    } else {
        sel.push(i)
    }
}

/// Where the selection of an install's packages stands after some queries.
pub enum SelectionState {
    /// The packages selected so far, by position, and how many choices
    /// among candidates were used.
    Going { sel: Seq<usize>, used: nat },
    /// This query names no package: the install fails on it.
    Missing { query: Seq<char> },
    /// A query names these candidates, and no choice among them is given.
    Asking { candidates: Seq<usize> },
}

/// The selection after one more query: a query naming nothing stops it; a
/// query naming held packages is skipped unless holds are escaped; a query
/// naming one package adds it; a query naming several adds the next choice
/// among `picks` when it is one of them, and asks for one otherwise. No
/// package is added twice.
pub open spec fn select_step(
    st: SelectionState,
    q: Seq<char>,
    synced: Seq<Package>,
    escape_hold: bool,
    picks: Seq<usize>,
) -> SelectionState {
    match st {
        SelectionState::Going { sel, used } => {
            let m = matching(q, synced);
            let k = query_selection_spec(m, synced, escape_hold);
            if k == 0 {
                SelectionState::Missing { query: q }
            } else if k == 1 {
                st
            } else if k == 2 {
                SelectionState::Going { sel: with_unique(sel, m[0]), used }
            } else if used < picks.len() && m.contains(picks[used as int]) {
                SelectionState::Going { sel: with_unique(sel, picks[used as int]), used: used + 1 }
            } else {
                SelectionState::Asking { candidates: m }
            }
        },
        _ => st,
    }
}

/// The selection of an install's packages over the queries in order, with
/// `picks` the choices made among candidates, in the order they were asked.
pub open spec fn install_selection(
    queries: Seq<Seq<char>>,
    synced: Seq<Package>,
    escape_hold: bool,
    picks: Seq<usize>,
) -> SelectionState
    decreases queries.len(),
{
    if queries.len() == 0 {
        SelectionState::Going { sel: Seq::empty(), used: 0 }
    } else {
        select_step(
            install_selection(queries.drop_last(), synced, escape_hold, picks),
            queries.last(),
            synced,
            escape_hold,
            picks,
        )
    }
}

/// Once the selection has stopped, more queries do not change it.
pub proof fn lemma_selection_stays(
    queries: Seq<Seq<char>>,
    synced: Seq<Package>,
    escape_hold: bool,
    picks: Seq<usize>,
    k: int,
)
    requires
        0 <= k <= queries.len(),
        !(install_selection(queries.take(k), synced, escape_hold, picks) is Going),
    ensures
        install_selection(queries, synced, escape_hold, picks) == install_selection(
            queries.take(k),
            synced,
            escape_hold,
            picks,
        ),
    decreases queries.len() - k,
{
    if k < queries.len() {
        assert(queries.take(k + 1).drop_last() =~= queries.take(k));
        lemma_selection_stays(queries, synced, escape_hold, picks, k + 1);
    } else {
        assert(queries.take(k) =~= queries);
    }
}

/// What selecting an install's packages gives.
pub enum InstallSelection {
    /// The packages to install or upgrade, by position among the available
    /// ones, in the order the queries name them.
    Selected(Vec<usize>),
    /// This query names no package.
    NotFound(String),
    /// A query names these candidates: one of them is to be chosen, and the
    /// selection run again with that choice added to the picks.
    NeedsChoice(Vec<usize>),
}

/// Selects the packages an install of `queries` takes among the available
/// packages, with `picks` the choices already made among candidates.
pub fn select_install(queries: &[&str], synced: &Vec<Package>, escape_hold: bool, picks: &Vec<usize>) -> (res: InstallSelection)
    ensures
        match install_selection(str_views(queries@), synced@, escape_hold, picks@) {
            SelectionState::Going { sel, used } => res matches InstallSelection::Selected(v) && v@ == sel,
            SelectionState::Missing { query } => res matches InstallSelection::NotFound(q) && q@ == query,
            SelectionState::Asking { candidates } => res matches InstallSelection::NeedsChoice(v) && v@
                == candidates,
        },
{
    let ghost qs = str_views(queries@);
    let mut sel: Vec<usize> = Vec::new();
    let mut used: usize = 0;
    let mut k: usize = 0;
    while k < queries.len()
        invariant
            k <= queries@.len(),
            qs == str_views(queries@),
            used <= picks@.len(),
            install_selection(qs.take(k as int), synced@, escape_hold, picks@)
                == (SelectionState::Going { sel: sel@, used: used as nat }),
        decreases queries@.len() - k,
    {
        let q = queries[k];
        proof {
            assert(qs.take(k + 1).drop_last() =~= qs.take(k as int));
            assert(qs.take(k + 1).last() == q@);
        }
        match resolve_query(q, synced, escape_hold) {
            QuerySelection::NotFound => {
                proof {
                    lemma_selection_stays(qs, synced@, escape_hold, picks@, k + 1);
                }
                return InstallSelection::NotFound(owned(q));
            },
            QuerySelection::Held => {},
            QuerySelection::Chosen(i) => {
                push_unique(&mut sel, i);
            },
            QuerySelection::Candidates(v) => {
                let mut found = false;
                if used < picks.len() {
                    let pick = picks[used];
                    let mut j: usize = 0;
                    while j < v.len()
                        invariant
                            j <= v@.len(),
                            !found ==> forall|t: int| 0 <= t < j ==> v@[t] != pick,
                            found ==> v@.contains(pick),
                        decreases v@.len() - j,
                    {
                        if v[j] == pick {
                            found = true;
                        }
                        j += 1;
                    }
                    if found {
                        push_unique(&mut sel, pick);
                        used = used + 1;
                    }
                }
                if !found {
                    proof {
                        lemma_selection_stays(qs, synced@, escape_hold, picks@, k + 1);
                    }
                    return InstallSelection::NeedsChoice(v);
                }
            },
        }
        k += 1;
    }
    proof {
        assert(qs.take(queries@.len() as int) =~= qs);
    }
    InstallSelection::Selected(sel)
}

// ---------------------------------------------------------------------------
// Choosing the packages a removal takes
// ---------------------------------------------------------------------------

/// The names of the strings of a list.
pub open spec fn str_views(v: Seq<&str>) -> Seq<Seq<char>> {
    v.map_values(|x: &str| x@)
}

/// `i` is the position of an installed package named `n`.
pub open spec fn named(installed: Seq<Package>, n: Seq<char>, i: int) -> bool {
    0 <= i < installed.len() && installed[i].name@ == n
}

/// Some installed package is named `n`.
pub open spec fn found(installed: Seq<Package>, n: Seq<char>) -> bool {
    exists|i: int| named(installed, n, i)
}

/// At most one installed package is named `n`.
pub open spec fn at_most_one(installed: Seq<Package>, n: Seq<char>) -> bool {
    forall|i: int, j: int| named(installed, n, i) && named(installed, n, j) ==> i == j
}

/// Each name a removal of `names` looks up, before it meets one that no
/// installed package has, is the name of at most one installed package.
pub open spec fn removal_resolvable(names: Seq<Seq<char>>, installed: Seq<Package>) -> bool {
    forall|k: int|
        0 <= k < names.len() && (forall|m: int| 0 <= m < k ==> found(installed, #[trigger] names[m]))
            ==> at_most_one(installed, #[trigger] names[k])
}

/// The packages a removal of `names` takes, by position among the installed
/// ones, in the order of the names; held packages are skipped unless holds
/// are escaped. `Err` holds the first name no installed package has.
pub open spec fn removal_selection(
    names: Seq<Seq<char>>,
    installed: Seq<Package>,
    escape_hold: bool,
) -> Result<Seq<usize>, Seq<char>>
    decreases names.len(),
{
    if names.len() == 0 {
        Ok(Seq::empty())
    } else {
        match removal_selection(names.drop_last(), installed, escape_hold) {
            Err(n) => Err(n),
            Ok(sel) => {
                let n = names.last();
                if exists|i: int| named(installed, n, i) {
                    let i = choose|i: int| named(installed, n, i);
                    if installed[i].held && !escape_hold {
                        Ok(sel)
                    } else {
                        Ok(sel.push(i as usize))
                    }
                } else {
                    Err(n)
                }
            },
        }
    }
}

/// The name a dependency refers to: what follows the bucket in
/// `bucket/name`, or the whole dependency.
pub open spec fn dependency_name(dep: Seq<char>) -> Seq<char> {
    after_first(dep, '/')
}

/// The package depends on a package named `name`.
pub open spec fn depends_on(p: Package, name: Seq<char>) -> bool {
    exists|d: int| 0 <= d < p.dependencies.len() && dependency_name(#[trigger] p.dependencies[d]@) == name
}

/// Pairs (dependent, dependency) of the installed packages among the first
/// `j`, outside the selection, that depend on the package at `target`.
pub open spec fn dependents_upto(
    target: usize,
    sel: Seq<usize>,
    installed: Seq<Package>,
    j: int,
) -> Seq<(Seq<char>, Seq<char>)>
    decreases j,
{
    if j <= 0 {
        Seq::empty()
    } else {
        let prev = dependents_upto(target, sel, installed, j - 1);
        let p = installed[j - 1];
        if !sel.contains((j - 1) as usize) && depends_on(p, installed[target as int].name@) {
            prev.push((p.name@, installed[target as int].name@))
        } else {
            prev
        }
    }
}

/// Pairs (dependent, dependency) for the first `k` selected packages, in
/// the order of the selection and then of the installed packages.
pub open spec fn dependents(sel: Seq<usize>, installed: Seq<Package>, k: int) -> Seq<(Seq<char>, Seq<char>)>
    decreases k,
{
    if k <= 0 {
        Seq::empty()
    } else {
        dependents(sel, installed, k - 1) + dependents_upto(sel[k - 1], sel, installed, installed.len() as int)
    }
}

/// The views of a list of pairs of strings.
pub open spec fn pair_views(v: Seq<(String, String)>) -> Seq<(Seq<char>, Seq<char>)> {
    v.map_values(|x: (String, String)| (x.0@, x.1@))
}

/// The name a dependency refers to.
pub fn dep_name(dep: &str) -> (res: String)
    ensures
        res@ == dependency_name(dep@),
{
    suffix_after_first(dep, '/')
}

/// Whether the package depends on a package named `name`.
pub fn package_depends_on(p: &Package, name: &String) -> (res: bool)
    ensures
        res == depends_on(*p, name@),
{
    let mut d: usize = 0;
    while d < p.dependencies.len()
        invariant
            d <= p.dependencies@.len(),
            forall|e: int| 0 <= e < d ==> dependency_name(#[trigger] p.dependencies@[e]@) != name@,
        decreases p.dependencies@.len() - d,
    {
        let n = dep_name(p.dependencies[d].as_str());
        if n == *name {
            assert(dependency_name(p.dependencies@[d as int]@) == name@);
            return true;
        }
        d += 1;
    }
    false
}

/// Whether `v` holds `x`.
pub fn contains_index(v: &Vec<usize>, x: usize) -> (res: bool)
    ensures
        res == v@.contains(x),
{
    let mut i: usize = 0;
    while i < v.len()
        invariant
            i <= v@.len(),
            forall|k: int| 0 <= k < i ==> v@[k] != x,
        decreases v@.len() - i,
    {
        if v[i] == x {
            return true;
        }
        i += 1;
    }
    false
}

/// Position of the installed package named `name`.
pub fn find_named(installed: &Vec<Package>, name: &str) -> (res: Option<usize>)
    ensures
        match res {
            Some(i) => named(installed@, name@, i as int),
            None => forall|i: int| !named(installed@, name@, i),
        },
{
    let n = owned(name);
    let mut i: usize = 0;
    while i < installed.len()
        invariant
            i <= installed@.len(),
            n@ == name@,
            forall|k: int| 0 <= k < i ==> installed@[k].name@ != name@,
        decreases installed@.len() - i,
    {
        if installed[i].name == n {
            return Some(i);
        }
        i += 1;
    }
    None
}

/// Selects the installed packages a removal of `names` takes, by position.
pub fn select_removals(names: &[&str], installed: &Vec<Package>, escape_hold: bool) -> (res: Result<Vec<usize>, String>)
    requires
        removal_resolvable(str_views(names@), installed@),
    ensures
        match removal_selection(str_views(names@), installed@, escape_hold) {
            Ok(sel) => res matches Ok(v) && v@ == sel,
            Err(n) => res matches Err(m) && m@ == n,
        },
        res matches Ok(v) ==> forall|k: int| 0 <= k < v@.len() ==> v@[k] < installed@.len(),
{
    let ghost ns = str_views(names@);
    let mut sel: Vec<usize> = Vec::new();
    let mut k: usize = 0;
    while k < names.len()
        invariant
            k <= names@.len(),
            ns == str_views(names@),
            removal_resolvable(ns, installed@),
            forall|m: int| 0 <= m < k ==> found(installed@, #[trigger] ns[m]),
            removal_selection(ns.take(k as int), installed@, escape_hold) == Ok::<Seq<usize>, Seq<char>>(sel@),
            forall|j: int| 0 <= j < sel@.len() ==> sel@[j] < installed@.len(),
        decreases names@.len() - k,
    {
        let name = names[k];
        proof {
            assert(ns.take(k + 1).drop_last() =~= ns.take(k as int));
            assert(ns.take(k + 1).last() == name@);
        }
        match find_named(installed, name) {
            None => {
                proof {
                    assert(removal_selection(ns.take(k + 1), installed@, escape_hold) == Err::<Seq<usize>, Seq<char>>(name@));
                    lemma_selection_err_stays(ns, installed@, escape_hold, k + 1);
                    assert(ns.take(ns.len() as int) =~= ns);
                }
                return Err(owned(name));
            },
            Some(i) => {
                proof {
                    let c = choose|c: int| named(installed@, name@, c);
                    assert(ns[k as int] == name@);
                    assert(at_most_one(installed@, ns[k as int]));
                    assert(named(installed@, name@, i as int));
                    assert(c == i);
                    assert forall|m: int| 0 <= m < k + 1 implies found(installed@, #[trigger] ns[m]) by {
                        if m == k {
                            assert(named(installed@, ns[m], i as int));
                        }
                    }
                }
                if !(installed[i].held && !escape_hold) {
                    sel.push(i);
                }
            },
        }
        k += 1;
    }
    proof {
        assert(ns.take(names@.len() as int) =~= ns);
    }
    Ok(sel)
}

/// Once a name is missing, the selection of any longer list of names fails
/// on it.
pub proof fn lemma_selection_err_stays(
    ns: Seq<Seq<char>>,
    installed: Seq<Package>,
    escape_hold: bool,
    k: int,
)
    requires
        0 <= k <= ns.len(),
        removal_selection(ns.take(k), installed, escape_hold) is Err,
    ensures
        removal_selection(ns, installed, escape_hold) == removal_selection(ns.take(k), installed, escape_hold),
    decreases ns.len() - k,
{
    if k < ns.len() {
        assert(ns.take(k + 1).drop_last() =~= ns.take(k));
        lemma_selection_err_stays(ns, installed, escape_hold, k + 1);
    } else {
        assert(ns.take(k) =~= ns);
    }
}

/// Pairs (dependent, dependency) of installed packages outside the
/// selection that depend on a selected package.
pub fn find_dependents(sel: &Vec<usize>, installed: &Vec<Package>) -> (res: Vec<(String, String)>)
    requires
        forall|k: int| 0 <= k < sel@.len() ==> sel@[k] < installed@.len(),
    ensures
        pair_views(res@) == dependents(sel@, installed@, sel@.len() as int),
{
    let mut res: Vec<(String, String)> = Vec::new();
    let mut k: usize = 0;
    while k < sel.len()
        invariant
            k <= sel@.len(),
            forall|m: int| 0 <= m < sel@.len() ==> sel@[m] < installed@.len(),
            pair_views(res@) == dependents(sel@, installed@, k as int),
        decreases sel@.len() - k,
    {
        let target = sel[k];
        let ghost before = pair_views(res@);
        let mut j: usize = 0;
        while j < installed.len()
            invariant
                k < sel@.len(),
                target == sel@[k as int],
                target < installed@.len(),
                j <= installed@.len(),
                pair_views(res@) == before + dependents_upto(target, sel@, installed@, j as int),
            decreases installed@.len() - j,
        {
            let p = &installed[j];
            if !contains_index(sel, j) && package_depends_on(p, &installed[target].name) {
                let pair = (p.name.clone(), installed[target].name.clone());
                let ghost prev = res@;
                res.push(pair);
                assert(pair_views(res@) =~= pair_views(prev).push((p.name@, installed@[target as int].name@)));
            }
            j += 1;
        }
        k += 1;
    }
    res
}

/// The installed package at `i` goes along with a cascade removal of the
/// packages at the positions `r`: it is not among them, it is not held (or
/// holds are escaped), one of them depends on it, and no other installed
/// package outside them does.
#[verifier::opaque]
pub open spec fn cascade_candidate(installed: Seq<Package>, r: Seq<usize>, i: int, escape_hold: bool) -> bool {
    &&& 0 <= i < installed.len()
    &&& !r.contains(i as usize)
    &&& escape_hold || !installed[i].held
    &&& exists|k: int|
        0 <= k < r.len() && r[k] < installed.len() && #[trigger] depends_on(installed[r[k] as int], installed[i].name@)
    &&& forall|j: int|
        0 <= j < installed.len() && j != i && !r.contains(j as usize) ==> !#[trigger] depends_on(installed[j], installed[i].name@)
}

/// `res` is a cascade removal of the packages at the positions `sel`: it
/// starts with them, each package after them went along with those before
/// it, and no further installed package goes along with all of them.
pub open spec fn cascaded(installed: Seq<Package>, sel: Seq<usize>, res: Seq<usize>, escape_hold: bool) -> bool {
    &&& sel.len() <= res.len()
    &&& res.take(sel.len() as int) == sel
    &&& forall|k: int| sel.len() <= k < res.len() ==> cascade_candidate(installed, res.take(k), #[trigger] res[k] as int, escape_hold)
    &&& forall|i: int| !#[trigger] cascade_candidate(installed, res, i, escape_hold)
}

/// How many entries are false.
pub open spec fn falses(s: Seq<bool>) -> nat
    decreases s.len(),
{
    if s.len() == 0 {
        0
    } else {
        falses(s.drop_last()) + if s.last() {
            0nat
        } else {
            1nat
        }
    }
}

/// Setting a false entry to true leaves one false entry fewer.
proof fn lemma_falses_update(s: Seq<bool>, i: int)
    requires
        0 <= i < s.len(),
        !s[i],
    ensures
        falses(s.update(i, true)) + 1 == falses(s),
    decreases s.len(),
{
    let t = s.update(i, true);
    if i == s.len() - 1 {
        assert(t.drop_last() =~= s.drop_last());
    } else {
        assert(t.drop_last() =~= s.drop_last().update(i, true));
        lemma_falses_update(s.drop_last(), i);
    }
}

/// Whether the installed package at `i` goes along with a cascade removal
/// of the packages at the positions `r`; `taken` marks those positions.
fn is_cascade_candidate(installed: &Vec<Package>, r: &Vec<usize>, taken: &Vec<bool>, i: usize, escape_hold: bool) -> (res: bool)
    requires
        i < installed@.len(),
        taken@.len() == installed@.len(),
        forall|t: int| 0 <= t < installed@.len() ==> taken@[t] == r@.contains(t as usize),
        forall|k: int| 0 <= k < r@.len() ==> r@[k] < installed@.len(),
    ensures
        res == cascade_candidate(installed@, r@, i as int, escape_hold),
{
    proof {
        reveal(cascade_candidate);
    }
    if taken[i] || (!escape_hold && installed[i].held) {
        return false;
    }
    let name = &installed[i].name;
    let mut needed = false;
    let mut k: usize = 0;
    while k < r.len()
        invariant
            k <= r@.len(),
            forall|m: int| 0 <= m < r@.len() ==> r@[m] < installed@.len(),
            name@ == installed@[i as int].name@,
            !needed ==> forall|m: int| 0 <= m < k ==> !depends_on(installed@[r@[m] as int], name@),
            needed ==> exists|m: int|
                0 <= m < r@.len() && r@[m] < installed@.len() && #[trigger] depends_on(installed@[r@[m] as int], name@),
        decreases r@.len() - k,
    {
        if !needed && package_depends_on(&installed[r[k]], name) {
            needed = true;
        }
        k += 1;
    }
    if !needed {
        return false;
    }
    let mut j: usize = 0;
    while j < installed.len()
        invariant
            j <= installed@.len(),
            i < installed@.len(),
            taken@.len() == installed@.len(),
            forall|t: int| 0 <= t < installed@.len() ==> taken@[t] == r@.contains(t as usize),
            name@ == installed@[i as int].name@,
            forall|t: int|
                0 <= t < j && t != i && !r@.contains(t as usize) ==> !#[trigger] depends_on(installed@[t], name@),
        decreases installed@.len() - j,
    {
        if j != i && !taken[j] && package_depends_on(&installed[j], name) {
            proof {
                reveal(cascade_candidate);
            }
            return false;
        }
        j += 1;
    }
    true
}

/// Extends a removal of the packages at the positions `sel` with the
/// installed packages that only they need, recursively: each dependency of
/// a package removed, that no installed package outside the removal
/// depends on, and that is not held unless holds are escaped.
pub fn cascade_removal(sel: Vec<usize>, installed: &Vec<Package>, escape_hold: bool) -> (res: Vec<usize>)
    requires
        forall|k: int| 0 <= k < sel@.len() ==> sel@[k] < installed@.len(),
    ensures
        cascaded(installed@, sel@, res@, escape_hold),
        forall|k: int| 0 <= k < res@.len() ==> res@[k] < installed@.len(),
{
    proof {
        reveal(cascade_candidate);
    }
    let ghost s0 = sel@;
    let mut res = sel;
    let mut taken: Vec<bool> = Vec::new();
    let mut t: usize = 0;
    while t < installed.len()
        invariant
            t <= installed@.len(),
            res@ == s0,
            taken@.len() == t,
            forall|u: int| 0 <= u < t ==> taken@[u] == res@.contains(u as usize),
        decreases installed@.len() - t,
    {
        let c = contains_index(&res, t);
        taken.push(c);
        t += 1;
    }
    assert(res@.take(s0.len() as int) =~= s0);
    let mut changed = true;
    while changed
        invariant
            taken@.len() == installed@.len(),
            forall|u: int| 0 <= u < installed@.len() ==> taken@[u] == res@.contains(u as usize),
            forall|k: int| 0 <= k < res@.len() ==> res@[k] < installed@.len(),
            s0.len() <= res@.len(),
            res@.take(s0.len() as int) == s0,
            forall|k: int| s0.len() <= k < res@.len() ==> cascade_candidate(installed@, res@.take(k), #[trigger] res@[k] as int, escape_hold),
            !changed ==> forall|i: int| !cascade_candidate(installed@, res@, i, escape_hold),
        decreases falses(taken@) + if changed { 1nat } else { 0nat },
    {
        let ghost f0 = falses(taken@);
        changed = false;
        let mut i: usize = 0;
        while i < installed.len()
            invariant
                i <= installed@.len(),
                taken@.len() == installed@.len(),
                forall|u: int| 0 <= u < installed@.len() ==> taken@[u] == res@.contains(u as usize),
                forall|k: int| 0 <= k < res@.len() ==> res@[k] < installed@.len(),
                s0.len() <= res@.len(),
                res@.take(s0.len() as int) == s0,
                forall|k: int| s0.len() <= k < res@.len() ==> cascade_candidate(installed@, res@.take(k), #[trigger] res@[k] as int, escape_hold),
                !changed ==> falses(taken@) == f0,
                changed ==> falses(taken@) < f0,
                !changed ==> forall|u: int| 0 <= u < i ==> !cascade_candidate(installed@, res@, u, escape_hold),
            decreases installed@.len() - i,
        {
            proof {
                reveal(cascade_candidate);
            }
            if is_cascade_candidate(installed, &res, &taken, i, escape_hold) {
                let ghost before = res@;
                let ghost tb = taken@;
                proof {
                    lemma_falses_update(taken@, i as int);
                }
                res.push(i);
                taken.set(i, true);
                proof {
                    assert(res@.take(s0.len() as int) =~= before.take(s0.len() as int));
                    assert(res@.take(before.len() as int) =~= before);
                    assert forall|k: int| s0.len() <= k < res@.len() implies cascade_candidate(installed@, res@.take(k), #[trigger] res@[k] as int, escape_hold) by {
                        if k < before.len() {
                            assert(res@.take(k) =~= before.take(k));
                            assert(res@[k] == before[k]);
                        }
                    }
                    assert forall|u: int| 0 <= u < installed@.len() implies taken@[u] == res@.contains(u as usize) by {
                        if u != i {
                            assert(taken@[u] == tb[u]);
                            if res@.contains(u as usize) {
                                let w = choose|w: int| 0 <= w < res@.len() && res@[w] == u as usize;
                                assert(w < before.len());
                                assert(before[w] == u as usize);
                            }
                            if before.contains(u as usize) {
                                let w = choose|w: int| 0 <= w < before.len() && before[w] == u as usize;
                                assert(res@[w] == u as usize);
                            }
                        } else {
                            assert(res@[before.len() as int] == i);
                        }
                    }
                }
                changed = true;
            }
            i += 1;
        }
        proof {
            reveal(cascade_candidate);
        }
    }
    res
}

/// Plans the removal of `names`: the installed packages to remove, by
/// position; fails with the first name not installed, or, unless the
/// dependent check is disabled, with every (dependent, dependency) pair that
/// removing them would break. With `Cascade`, the dependencies that only
/// the removed packages need are removed too, recursively.
pub fn plan_removal(names: &[&str], installed: &Vec<Package>, options: &[SyncOption]) -> (res: Result<Vec<usize>, Error>)
    requires
        removal_resolvable(str_views(names@), installed@),
    ensures
        match removal_selection(str_views(names@), installed@, options@.contains(SyncOption::EscapeHold)) {
            Err(n) => res matches Err(Error::PackageNotFound(m)) && m@ == n,
            Ok(sel) => {
                let deps = dependents(sel, installed@, sel.len() as int);
                if !options@.contains(SyncOption::NoDependentCheck) && deps.len() > 0 {
                    res matches Err(Error::PackageDependentFound(v)) && pair_views(v@) == deps
                } else if options@.contains(SyncOption::Cascade) {
                    res matches Ok(v) && cascaded(
                        installed@,
                        sel,
                        v@,
                        options@.contains(SyncOption::EscapeHold),
                    )
                } else {
                    res matches Ok(v) && v@ == sel
                }
            },
        },
        res matches Ok(v) ==> forall|k: int| 0 <= k < v@.len() ==> v@[k] < installed@.len(),
{
    let escape_hold = has_option(options, SyncOption::EscapeHold);
    let sel = match select_removals(names, installed, escape_hold) {
        Ok(sel) => sel,
        Err(n) => {
            return Err(Error::PackageNotFound(n));
        },
    };
    if !has_option(options, SyncOption::NoDependentCheck) {
        let deps = find_dependents(&sel, installed);
        if deps.len() > 0 {
            return Err(Error::PackageDependentFound(deps));
        }
    }
    if has_option(options, SyncOption::Cascade) {
        return Ok(cascade_removal(sel, installed, escape_hold));
    }
    Ok(sel)
}

/// The message for packages whose removal needs their uninstall script.
pub open spec fn script_message(names: Seq<Seq<char>>) -> Seq<char> {
    "Found package(s) using PowerShell script:\n  "@ + join(names, "  "@)
        + "\nRemoval of package with PowerShell script is not yet supported."@
}

/// Names of the packages that have an uninstall script, in order.
pub open spec fn scripted_names(pkgs: Seq<Package>) -> Seq<Seq<char>> {
    pkgs.filter(has_script()).map_values(name_of())
}

/// The package has an uninstall script.
pub open spec fn has_script() -> spec_fn(Package) -> bool {
    |p: Package| p.has_uninstall_script
}

/// The name of a package.
pub open spec fn name_of() -> spec_fn(Package) -> Seq<char> {
    |p: Package| p.name@
}

/// The transaction of a removal: the packages to remove, unless some of
/// them have an uninstall script, which this library cannot run.
pub fn removal_transaction(packages: Vec<Package>) -> (res: Result<Transaction, Error>)
    ensures
        match res {
            Ok(t) => {
                &&& scripted_names(packages@).len() == 0
                &&& t.removes() == Some(packages@)
                &&& t.installs() is None && t.upgrades() is None && t.replaces() is None
                &&& t.size() is None
            },
            Err(e) => {
                &&& scripted_names(packages@).len() > 0
                &&& e matches Error::Custom(m) && m@ == script_message(scripted_names(packages@))
            },
        },
{
    let ghost pred = has_script();
    let mut scripted: Vec<String> = Vec::new();
    let mut i: usize = 0;
    while i < packages.len()
        invariant
            i <= packages@.len(),
            pred == has_script(),
            views(scripted@) == packages@.take(i as int).filter(pred).map_values(name_of()),
        decreases packages@.len() - i,
    {
        proof {
            lemma_filter_take_step(packages@, pred, i as int);
        }
        let ghost prev = scripted@;
        if packages[i].has_uninstall_script {
            scripted.push(packages[i].name.clone());
            assert(views(scripted@) =~= views(prev).push(packages@[i as int].name@));
            assert(packages@.take(i as int).filter(pred).push(packages@[i as int]).map_values(name_of())
                =~= packages@.take(i as int).filter(pred).map_values(name_of()).push(packages@[i as int].name@));
        }
        i += 1;
    }
    proof {
        assert(packages@.take(packages@.len() as int) =~= packages@);
    }
    if scripted.len() > 0 {
        let mut msg = String::from_str("Found package(s) using PowerShell script:\n  ");
        let names = join_strings(&scripted, "  ");
        msg.append(names.as_str());
        msg.append("\nRemoval of package with PowerShell script is not yet supported.");
        return Err(Error::Custom(msg));
    }
    let mut t = Transaction::new();
    t.set_remove(packages);
    Ok(t)
}

// ---------------------------------------------------------------------------
// Steps of an install
// ---------------------------------------------------------------------------

/// The queries are the single wildcard `*`: every installed package.
pub fn is_upgrade_all(queries: &[&str]) -> (res: bool)
    ensures
        res == (queries@.len() == 1 && queries@[0]@ == "*"@),
{
    queries.len() == 1 && str_eq(queries[0], "*")
}

/// Name of the file a non-archive download is copied to: the last path
/// segment of the URL, without its query string.
pub open spec fn download_target_name_spec(url: Seq<char>) -> Seq<char> {
    before_first(after_last(url, '/'), '?')
}

/// Name of the file a non-archive download is copied to.
pub fn download_target_name(url: &str) -> (res: String)
    ensures
        res@ == download_target_name_spec(url@),
{
    let last = suffix_after_last(url, '/');
    prefix_before(last.as_str(), '?')
}

/// The architecture label an install record uses for a CPU architecture.
pub open spec fn arch_label_spec(arch: Seq<char>) -> Seq<char> {
    if arch == "x86_64"@ {
        "64bit"@
    } else if arch == "x86"@ {
        "32bit"@
    } else if arch == "aarch64"@ {
        "arm64"@
    } else {
        arch
    }
}

/// The architecture label an install record uses for a CPU architecture.
pub fn arch_label(arch: &str) -> (res: String)
    ensures
        res@ == arch_label_spec(arch@),
{
    if str_eq(arch, "x86_64") {
        String::from_str("64bit")
    } else if str_eq(arch, "x86") {
        String::from_str("32bit")
    } else if str_eq(arch, "aarch64") {
        String::from_str("arm64")
    } else {
        owned(arch)
    }
}

/// What an install writes into the record of the version it installs.
pub struct InstallRecord {
    /// Architecture label of the installed files.
    pub architecture: String,
    /// Bucket the package was installed from.
    pub bucket: Option<String>,
    /// Whether the package is held after the install.
    pub hold: Option<bool>,
}

/// The record an install writes for `pkg` on a machine of CPU architecture
/// `arch`. A held package that an upgrade or replace touched (through
/// `EscapeHold`) is held again; any other package is not held.
pub fn install_record(arch: &str, pkg: &Package) -> (res: InstallRecord)
    ensures
        res.architecture@ == arch_label_spec(arch@),
        res.bucket matches Some(b) && b@ == pkg.bucket@,
        res.hold == Some(pkg.held),
{
    InstallRecord {
        architecture: arch_label(arch),
        bucket: Some(owned(pkg.bucket.as_str())),
        hold: Some(pkg.held),
    }
}

/// Name of the staging directory of a version, inside the app directory.
pub fn staging_dir_name(version: &str) -> (res: String)
    ensures
        res@ == ".tmp-"@ + version@,
{
    let mut r = String::from_str(".tmp-");
    r.append(version);
    r
}

/// Whether the downloads of a version are checked against their hashes:
/// nightly versions have none.
pub fn needs_hash_check(version: &str) -> (res: bool)
    ensures
        res == (version@ != "nightly"@),
{
    !str_eq(version, "nightly")
}

/// Compares the checksum of a downloaded file with the manifest's.
pub fn check_hash(package_name: &str, url: &str, expected: &str, actual: &str) -> (res: Result<(), Error>)
    ensures
        expected@ == actual@ ==> res is Ok,
        expected@ != actual@ ==> (res matches Err(Error::HashMismatch(ctx)) && ctx.package_name@
            == package_name@ && ctx.url@ == url@ && ctx.expected@ == expected@ && ctx.actual@
            == actual@),
{
    if str_eq(actual, expected) {
        Ok(())
    } else {
        Err(
            Error::HashMismatch(
                HashMismatchContext {
                    package_name: owned(package_name),
                    url: owned(url),
                    expected: owned(expected),
                    actual: owned(actual),
                },
            ),
        )
    }
}

/// Where the files of a version are moved from once downloads are staged.
pub enum ExtractSource {
    /// The manifest's `extract_dir`, a path below the staging directory.
    ExtractDir(Vec<String>),
    /// The only subdirectory the archives were extracted into.
    OnlySubdir(String),
    /// The staging directory itself.
    Staging,
}

/// Chooses where the files of a version are moved from: the manifest's
/// `extract_dir` where it gives one, else the only subdirectory of the
/// staging directory, else the staging directory.
pub fn choose_extract_source(extract_dir: Option<Vec<String>>, subdirs: Vec<String>) -> (res: ExtractSource)
    ensures
        match extract_dir {
            Some(d) => res matches ExtractSource::ExtractDir(e) && e@ == d@,
            None => if subdirs@.len() == 1 {
                res matches ExtractSource::OnlySubdir(s) && s == subdirs@[0]
            } else {
                res matches ExtractSource::Staging
            },
        },
{
    match extract_dir {
        Some(d) => ExtractSource::ExtractDir(d),
        None => {
            let mut subdirs = subdirs;
            if subdirs.len() == 1 {
                let s = subdirs.pop().unwrap();
                ExtractSource::OnlySubdir(s)
            } else {
                ExtractSource::Staging
            }
        },
    }
}

/// The version directory an upgrade leaves behind and removes: the
/// installed version's, when only upgrades are done and it differs from the
/// new version.
pub fn superseded_version(only_upgrade: bool, installed_version: Option<&str>, version: &str) -> (res: Option<String>)
    ensures
        match res {
            Some(v) => {
                &&& only_upgrade
                &&& installed_version matches Some(o) && v@ == o@ && o@ != version@
            },
            None => !only_upgrade || installed_version is None || installed_version.unwrap()@ == version@,
        },
{
    if !only_upgrade {
        return None;
    }
    match installed_version {
        Some(o) => {
            if str_eq(o, version) {
                None
            } else {
                Some(owned(o))
            }
        },
        None => None,
    }
}

// ---------------------------------------------------------------------------
// The steps of an install once its transaction is planned
// ---------------------------------------------------------------------------

/// A step of an install or upgrade once its transaction is planned.
#[derive(Clone, Copy, Debug, PartialEq, Eq, Structural)]
pub enum SyncStep {
    /// Nothing to do: the transaction adds no package.
    NoOp,
    /// Compute the total download size and record it in the transaction.
    ComputeDownloadSize,
    /// Ask the user to confirm the transaction.
    Confirm,
    /// Download the packages.
    Download,
    /// Check the downloaded files against their hashes.
    VerifyHashes,
    /// Install the package at this position among the added packages.
    Install(usize),
    /// Undo the failed install of the package at this position; the
    /// packages installed before it are kept.
    RollBack(usize),
    /// The sync is done.
    Done,
    /// The sync ends successfully with nothing more done: the user
    /// declined the transaction.
    Cancelled,
    /// The sync ends with the error of the step that failed, after the
    /// rollback of a failed install.
    Aborted,
}

/// How a step ended.
#[derive(Clone, Copy, Debug, PartialEq, Eq, Structural)]
pub enum StepOutcome {
    Succeeded,
    /// The user declined the transaction.
    Declined,
    Failed,
}

/// The step after hashes are checked (or would be): installs unless only
/// downloading, then done.
pub open spec fn after_verify(o: Seq<SyncOption>, n: nat) -> SyncStep {
    if !o.contains(SyncOption::DownloadOnly) && n > 0 {
        SyncStep::Install(0)
    } else {
        SyncStep::Done
    }
}

/// The step after the download: the hash check unless disabled.
pub open spec fn after_download(o: Seq<SyncOption>, n: nat) -> SyncStep {
    if !o.contains(SyncOption::NoHashCheck) {
        SyncStep::VerifyHashes
    } else {
        after_verify(o, n)
    }
}

/// The step after the confirmation: the download unless offline.
pub open spec fn after_confirm(o: Seq<SyncOption>, n: nat) -> SyncStep {
    if !o.contains(SyncOption::Offline) {
        SyncStep::Download
    } else {
        after_download(o, n)
    }
}

/// The step after sizing: the confirmation unless yes is assumed.
pub open spec fn after_sizing(o: Seq<SyncOption>, n: nat) -> SyncStep {
    if !o.contains(SyncOption::AssumeYes) {
        SyncStep::Confirm
    } else {
        after_confirm(o, n)
    }
}

/// The first step of a sync that adds `n` packages: nothing without
/// packages; else sizing, unless offline or yes is assumed (which also
/// suppresses the calculation of the download size).
pub open spec fn first_step_spec(o: Seq<SyncOption>, n: nat) -> SyncStep {
    if n == 0 {
        SyncStep::NoOp
    } else if !o.contains(SyncOption::Offline) && !o.contains(SyncOption::AssumeYes) {
        SyncStep::ComputeDownloadSize
    } else {
        after_sizing(o, n)
    }
}

/// The step after `step` ended with `outcome`: a declined confirmation
/// ends the sync successfully with nothing more done; a failure ends it
/// with the failure's error, a failed package install being rolled back
/// first, unless `IgnoreFailure` is set, with which the sync goes on with
/// the next package and nothing is rolled back.
pub open spec fn next_step_spec(step: SyncStep, outcome: StepOutcome, o: Seq<SyncOption>, n: nat) -> SyncStep {
    match step {
        SyncStep::NoOp => SyncStep::NoOp,
        SyncStep::Done => SyncStep::Done,
        SyncStep::Cancelled => SyncStep::Cancelled,
        SyncStep::Aborted => SyncStep::Aborted,
        SyncStep::RollBack(_) => SyncStep::Aborted,
        SyncStep::Install(i) => if outcome == StepOutcome::Succeeded || (outcome == StepOutcome::Failed
            && o.contains(SyncOption::IgnoreFailure)) {
            if i + 1 < n {
                SyncStep::Install((i + 1) as usize)
            } else {
                SyncStep::Done
            }
        } else if outcome == StepOutcome::Failed {
            SyncStep::RollBack(i)
        } else {
            SyncStep::Cancelled
        },
        _ => if outcome == StepOutcome::Declined {
            SyncStep::Cancelled
        } else if outcome == StepOutcome::Failed {
            SyncStep::Aborted
        } else {
            match step {
                SyncStep::ComputeDownloadSize => after_sizing(o, n),
                SyncStep::Confirm => after_confirm(o, n),
                SyncStep::Download => after_download(o, n),
                _ => after_verify(o, n),
            }
        },
    }
}

/// The steps the options allow: no sizing offline or when yes is assumed,
/// no confirmation when yes is assumed, no download offline, no hash check
/// when disabled, no install when only downloading, installs only of added
/// packages, and no rollback when failures are ignored.
pub open spec fn step_allowed(step: SyncStep, o: Seq<SyncOption>, n: nat) -> bool {
    match step {
        SyncStep::ComputeDownloadSize => !o.contains(SyncOption::Offline) && !o.contains(
            SyncOption::AssumeYes,
        ),
        SyncStep::Confirm => !o.contains(SyncOption::AssumeYes),
        SyncStep::Download => !o.contains(SyncOption::Offline),
        SyncStep::VerifyHashes => !o.contains(SyncOption::NoHashCheck),
        SyncStep::Install(i) => !o.contains(SyncOption::DownloadOnly) && i < n,
        SyncStep::RollBack(i) => !o.contains(SyncOption::DownloadOnly) && !o.contains(
            SyncOption::IgnoreFailure,
        ) && i < n,
        _ => true,
    }
}

/// The step after hashes are checked.
fn step_after_verify(options: &[SyncOption], n: usize) -> (res: SyncStep)
    ensures
        res == after_verify(options@, n as nat),
{
    if !has_option(options, SyncOption::DownloadOnly) && n > 0 {
        SyncStep::Install(0)
    } else {
        SyncStep::Done
    }
}

/// The step after the download.
fn step_after_download(options: &[SyncOption], n: usize) -> (res: SyncStep)
    ensures
        res == after_download(options@, n as nat),
{
    if !has_option(options, SyncOption::NoHashCheck) {
        SyncStep::VerifyHashes
    } else {
        step_after_verify(options, n)
    }
}

/// The step after the confirmation.
fn step_after_confirm(options: &[SyncOption], n: usize) -> (res: SyncStep)
    ensures
        res == after_confirm(options@, n as nat),
{
    if !has_option(options, SyncOption::Offline) {
        SyncStep::Download
    } else {
        step_after_download(options, n)
    }
}

/// The step after sizing.
fn step_after_sizing(options: &[SyncOption], n: usize) -> (res: SyncStep)
    ensures
        res == after_sizing(options@, n as nat),
{
    if !has_option(options, SyncOption::AssumeYes) {
        SyncStep::Confirm
    } else {
        step_after_confirm(options, n)
    }
}

/// The first step of a sync that adds `added` packages.
pub fn first_sync_step(options: &[SyncOption], added: usize) -> (res: SyncStep)
    ensures
        res == first_step_spec(options@, added as nat),
{
    if added == 0 {
        SyncStep::NoOp
    } else if !has_option(options, SyncOption::Offline) && !has_option(options, SyncOption::AssumeYes) {
        SyncStep::ComputeDownloadSize
    } else {
        step_after_sizing(options, added)
    }
}

/// The step after `step` ended with `outcome`, in a sync that adds `added`
/// packages.
pub fn next_sync_step(step: SyncStep, outcome: StepOutcome, options: &[SyncOption], added: usize) -> (res: SyncStep)
    ensures
        res == next_step_spec(step, outcome, options@, added as nat),
{
    match step {
        SyncStep::NoOp => SyncStep::NoOp,
        SyncStep::Done => SyncStep::Done,
        SyncStep::Cancelled => SyncStep::Cancelled,
        SyncStep::Aborted => SyncStep::Aborted,
        SyncStep::RollBack(_) => SyncStep::Aborted,
        SyncStep::Install(i) => {
            let go_on = match outcome {
                StepOutcome::Succeeded => true,
                StepOutcome::Failed => has_option(options, SyncOption::IgnoreFailure),
                StepOutcome::Declined => false,
            };
            if go_on {
                if i < added && i + 1 < added {
                    SyncStep::Install(i + 1)
                } else {
                    SyncStep::Done
                }
            } else {
                match outcome {
                    StepOutcome::Failed => SyncStep::RollBack(i),
                    _ => SyncStep::Cancelled,
                }
            }
        },
        _ => {
            match outcome {
                StepOutcome::Succeeded => match step {
                    SyncStep::ComputeDownloadSize => step_after_sizing(options, added),
                    SyncStep::Confirm => step_after_confirm(options, added),
                    SyncStep::Download => step_after_download(options, added),
                    _ => step_after_verify(options, added),
                },
                StepOutcome::Declined => SyncStep::Cancelled,
                StepOutcome::Failed => SyncStep::Aborted,
            }
        },
    }
}

} // verus!
