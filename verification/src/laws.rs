//! Properties of the library that span its functions: what a sync plan
//! never does, what a removal never takes, what cleanup never removes, and
//! how states and status entries relate.
use vstd::prelude::*;

use crate::archive::archive_url;
use crate::cleanup::is_old_version;
use crate::inventory::{
    ignored_dependency, missing_dependencies_spec, normalized, state_flags, AppRecord,
    PackageState, PackageStateFlag,
};
use crate::cmd::list::{listed, query_hits, Args as ListArgs};
use crate::status::{entries_of, entry_of, needs_attention, StatusEntry, StatusInfoFlag};
use crate::sync::{
    any_held, cascade_candidate, install_selection, SelectionState, cascaded, dependents, dependents_upto, depends_on, first_step_spec, installable, matching,
    named, next_step_spec, planned_installs, planned_replaces, planned_upgrades, query_matches,
    query_selection_spec, removal_selection, replaceable, step_allowed, upgradable, Package,
    StepOutcome, SyncOption, SyncStep,
};
use crate::text::{
    after_first, ascii_lower, ascii_upper, ascii_upper_char, is_ascii_text, is_first,
    lemma_first_unique, lemma_split_once_none, lowered,
};

verus! {

broadcast use vstd::seq_lib::group_filter_ensures;

// ---------------------------------------------------------------------------
// Sync plans
// ---------------------------------------------------------------------------

/// With `OnlyUpgrade`, a sync installs nothing.
pub proof fn law_only_upgrade_installs_nothing(pkgs: Seq<Package>, options: Seq<SyncOption>)
    requires
        options.contains(SyncOption::OnlyUpgrade),
    ensures
        planned_installs(pkgs, options) is None,
{
}

/// With `NoUpgrade`, a sync upgrades nothing; with `NoReplace`, it
/// replaces nothing.
pub proof fn law_no_upgrade_no_replace(pkgs: Seq<Package>, options: Seq<SyncOption>)
    ensures
        options.contains(SyncOption::NoUpgrade) ==> planned_upgrades(pkgs, options) is None,
        options.contains(SyncOption::NoReplace) ==> planned_replaces(pkgs, options) is None,
{
}

/// Held packages are upgraded or replaced only with `EscapeHold`.
pub proof fn law_held_not_upgraded_or_replaced(pkgs: Seq<Package>, options: Seq<SyncOption>, p: Package)
    requires
        p.held,
        (planned_upgrades(pkgs, options) matches Some(s) && s.contains(p)) || (planned_replaces(
            pkgs,
            options,
        ) matches Some(s) && s.contains(p)),
    ensures
        options.contains(SyncOption::EscapeHold),
{
    let e = options.contains(SyncOption::EscapeHold);
    let fu = upgradable(e);
    let fr = replaceable(e);
    if pkgs.filter(fu).contains(p) {
        let s = pkgs.filter(fu);
        let k = choose|k: int| 0 <= k < s.len() && s[k] == p;
        pkgs.lemma_filter_pred(fu, k);
    } else {
        let s = pkgs.filter(fr);
        let k = choose|k: int| 0 <= k < s.len() && s[k] == p;
        pkgs.lemma_filter_pred(fr, k);
    }
}

/// The parts of a sync plan are apart: installs are packages not yet
/// installed, upgrades are installed from their own bucket with a newer
/// version, replaces are installed from another bucket; each comes from
/// the proposed packages.
pub proof fn law_plan_parts(pkgs: Seq<Package>, options: Seq<SyncOption>, p: Package)
    ensures
        planned_installs(pkgs, options) matches Some(s) && s.contains(p) ==> pkgs.contains(p)
            && !p.installed,
        planned_upgrades(pkgs, options) matches Some(s) && s.contains(p) ==> pkgs.contains(p)
            && p.installed && p.strictly_installed && p.upgradable_version is Some,
        planned_replaces(pkgs, options) matches Some(s) && s.contains(p) ==> pkgs.contains(p)
            && p.installed && !p.strictly_installed,
{
    let fi = installable();
    let fu = upgradable(options.contains(SyncOption::EscapeHold));
    let fr = replaceable(options.contains(SyncOption::EscapeHold));
    if pkgs.filter(fi).contains(p) {
        let k = choose|k: int| 0 <= k < pkgs.filter(fi).len() && pkgs.filter(fi)[k] == p;
        pkgs.lemma_filter_pred(fi, k);
        pkgs.lemma_filter_contains_rev(fi, p);
    }
    if pkgs.filter(fu).contains(p) {
        let k = choose|k: int| 0 <= k < pkgs.filter(fu).len() && pkgs.filter(fu)[k] == p;
        pkgs.lemma_filter_pred(fu, k);
        pkgs.lemma_filter_contains_rev(fu, p);
    }
    if pkgs.filter(fr).contains(p) {
        let k = choose|k: int| 0 <= k < pkgs.filter(fr).len() && pkgs.filter(fr)[k] == p;
        pkgs.lemma_filter_pred(fr, k);
        pkgs.lemma_filter_contains_rev(fr, p);
    }
}

/// Every proposed package that is not installed is installed, unless only
/// upgrades are asked for.
pub proof fn law_uninstalled_get_installed(pkgs: Seq<Package>, options: Seq<SyncOption>, i: int)
    requires
        0 <= i < pkgs.len(),
        !pkgs[i].installed,
        !options.contains(SyncOption::OnlyUpgrade),
    ensures
        planned_installs(pkgs, options) matches Some(s) && s.contains(pkgs[i]),
{
    pkgs.lemma_filter_contains(installable(), i);
}

// ---------------------------------------------------------------------------
// Queries
// ---------------------------------------------------------------------------

/// A query without a bucket names the packages of that name in any bucket.
pub proof fn law_query_without_bucket(q: Seq<char>, p: Package)
    requires
        !q.contains('/'),
    ensures
        query_matches(q, p) == (p.name@ == q),
{
    assert(forall|j: int| 0 <= j < q.len() ==> q[j] != '/');
    lemma_split_once_none(q, '/');
}

/// An install query resolves to a held package only with `EscapeHold`:
/// otherwise a query naming a held package is skipped.
pub proof fn law_query_skips_held(q: Seq<char>, pkgs: Seq<Package>, escape_hold: bool, j: int)
    requires
        0 <= j < matching(q, pkgs).len(),
        pkgs[matching(q, pkgs)[j] as int].held,
        !escape_hold,
    ensures
        query_selection_spec(matching(q, pkgs), pkgs, escape_hold) <= 1,
{
    assert(any_held(matching(q, pkgs), pkgs));
}

/// Adding a chosen package to a selection without duplicates keeps it
/// without duplicates.
pub proof fn law_selection_no_duplicates(s: Seq<usize>, x: usize)
    requires
        s.no_duplicates(),
    ensures
        (if s.contains(x) {
            s
        } else {
            s.push(x)
        }).no_duplicates(),
{
    if !s.contains(x) {
        let t = s.push(x);
        assert forall|i: int, j: int| 0 <= i < t.len() && 0 <= j < t.len() && i != j implies t[i] != t[j] by {
            if i == s.len() as int {
                assert(s[j] == t[j]);
            } else if j == s.len() as int {
                assert(s[i] == t[i]);
            }
        }
    }
}

// ---------------------------------------------------------------------------
// Removals
// ---------------------------------------------------------------------------

/// A removal takes a held package only with `EscapeHold`, and takes only
/// installed packages it was asked for by name.
pub proof fn law_removal_selection(names: Seq<Seq<char>>, installed: Seq<Package>, escape_hold: bool)
    requires
        installed.len() <= usize::MAX,
        removal_selection(names, installed, escape_hold) is Ok,
    ensures
        forall|k: int| #![trigger removal_selection(names, installed, escape_hold)->Ok_0[k]]
            0 <= k < removal_selection(names, installed, escape_hold)->Ok_0.len() ==> {
                let i = removal_selection(names, installed, escape_hold)->Ok_0[k] as int;
                &&& 0 <= i < installed.len()
                &&& (!installed[i].held || escape_hold)
                &&& names.contains(installed[i].name@)
            },
    decreases names.len(),
{
    if names.len() > 0 {
        let sub = removal_selection(names.drop_last(), installed, escape_hold);
        assert(sub is Ok);
        law_removal_selection(names.drop_last(), installed, escape_hold);
        let sel = sub->Ok_0;
        let res = removal_selection(names, installed, escape_hold)->Ok_0;
        let n = names.last();
        assert(exists|c: int| named(installed, n, c));
        let c = choose|c: int| named(installed, n, c);
        assert(named(installed, n, c));
        assert(res == (if installed[c].held && !escape_hold {
            sel
        } else {
            sel.push(c as usize)
        }));
        assert forall|k: int| #![trigger res[k]] 0 <= k < res.len() implies {
            let i = res[k] as int;
            &&& 0 <= i < installed.len()
            &&& (!installed[i].held || escape_hold)
            &&& names.contains(installed[i].name@)
        } by {
            if k < sel.len() {
                assert(res[k] == sel[k]);
                let i = sel[k] as int;
                assert(names.drop_last().contains(installed[i].name@));
                let m = choose|m: int| 0 <= m < names.drop_last().len() && names.drop_last()[m] == installed[i].name@;
                assert(names[m] == installed[i].name@);
            } else {
                assert(res[k] == c as usize);
                assert(names[names.len() - 1] == installed[c].name@);
            }
        }
    }
}

/// Without a pair in the dependents found, no installed package outside a
/// removal depends on a package the removal takes: the dependent check
/// misses none.
pub proof fn law_dependent_check_complete(sel: Seq<usize>, installed: Seq<Package>, k: int, j: int)
    requires
        dependents(sel, installed, sel.len() as int).len() == 0,
        0 <= k < sel.len(),
        0 <= j < installed.len(),
        !sel.contains(j as usize),
    ensures
        !depends_on(installed[j], installed[sel[k] as int].name@),
{
    lemma_dependents_empty(sel, installed, sel.len() as int, k);
    lemma_dependents_upto_empty(sel[k], sel, installed, installed.len() as int, j);
}

/// No pair for the first `m` selected packages means none for each of them.
pub proof fn lemma_dependents_empty(sel: Seq<usize>, installed: Seq<Package>, m: int, k: int)
    requires
        dependents(sel, installed, m).len() == 0,
        0 <= k < m,
    ensures
        dependents_upto(sel[k], sel, installed, installed.len() as int).len() == 0,
    decreases m,
{
    if k < m - 1 {
        lemma_dependents_empty(sel, installed, m - 1, k);
    }
}

/// No pair among the first `m` installed packages means none of them,
/// outside the selection, depends on the target.
pub proof fn lemma_dependents_upto_empty(target: usize, sel: Seq<usize>, installed: Seq<Package>, m: int, j: int)
    requires
        dependents_upto(target, sel, installed, m).len() == 0,
        0 <= j < m,
        !sel.contains(j as usize),
    ensures
        !depends_on(installed[j], installed[target as int].name@),
    decreases m,
{
    if j < m - 1 {
        lemma_dependents_upto_empty(target, sel, installed, m - 1, j);
    }
}

// ---------------------------------------------------------------------------
// Cleanup
// ---------------------------------------------------------------------------

/// Cleanup never takes the current version nor the `current` link.
pub proof fn law_cleanup_keeps_current(dirs: Seq<Seq<char>>, current: Seq<char>, d: Seq<char>)
    requires
        dirs.filter(|x: Seq<char>| is_old_version(x, current)).contains(d),
    ensures
        d != current,
        d != "current"@,
{
    let f = |x: Seq<char>| is_old_version(x, current);
    let k = choose|k: int| 0 <= k < dirs.filter(f).len() && dirs.filter(f)[k] == d;
    dirs.lemma_filter_pred(f, k);
}

// ---------------------------------------------------------------------------
// Package states and the status report
// ---------------------------------------------------------------------------

/// A failed install is the only flag of its package.
pub proof fn law_install_failed_alone(rec: AppRecord, installed: Seq<Seq<char>>)
    requires
        state_flags(rec, installed).contains(PackageStateFlag::InstallFailed),
    ensures
        state_flags(rec, installed) == seq![PackageStateFlag::InstallFailed],
{
    if rec.files_present {
        let s = state_flags(rec, installed);
        let k = choose|k: int| 0 <= k < s.len() && s[k] == PackageStateFlag::InstallFailed;
        assert(s[k] != PackageStateFlag::InstallFailed);
    }
}

/// A missing dependency is never one of the tools that come along with the
/// package manager, nor an installed package.
pub proof fn law_missing_not_installed(deps: Seq<Seq<char>>, installed: Seq<Seq<char>>, d: Seq<char>)
    requires
        missing_dependencies_spec(deps, installed).contains(d),
    ensures
        !ignored_dependency(d),
        !installed.contains(d),
{
    let f = |n: Seq<char>| !ignored_dependency(n) && !installed.contains(n);
    let ns = deps.map_values(|x: Seq<char>| normalized(x));
    let k = choose|k: int| 0 <= k < ns.filter(f).len() && ns.filter(f)[k] == d;
    ns.lemma_filter_pred(f, k);
}

/// Every status entry has some flag.
pub proof fn law_entries_flagged(es: Seq<StatusEntry>, ss: Seq<PackageState>, i: int)
    requires
        entries_of(es, ss.filter(needs_attention())),
        0 <= i < es.len(),
    ensures
        es[i].flags@.len() > 0,
{
    ss.lemma_filter_pred(needs_attention(), i);
}

/// Package names are in ASCII lower case: normalizing a normalized name
/// of a single package, with no bucket left, changes nothing.
pub proof fn law_normalized_idempotent(s: Seq<char>)
    requires
        !after_first(s, '/').contains('/'),
    ensures
        normalized(normalized(s)) == normalized(s),
{
    let t = after_first(s, '/');
    let l = ascii_lower(t);
    assert forall|j: int| 0 <= j < l.len() implies l[j] != '/' by {
        assert(t[j] != '/');
    }
    lemma_split_once_none(l, '/');
    assert(ascii_lower(l) =~= l);
}

/// Every step of a sync respects its options: no sizing offline or when yes
/// is assumed, no confirmation when yes is assumed, no download offline, no
/// hash check when disabled, no install when only downloading, and installs
/// only of added packages. The first step does, and each next step does
/// whenever the step before it did.
pub proof fn law_sync_steps_respect_options(
    o: Seq<SyncOption>,
    n: nat,
    step: SyncStep,
    outcome: StepOutcome,
)
    requires
        n <= usize::MAX,
    ensures
        step_allowed(first_step_spec(o, n), o, n),
        step_allowed(step, o, n) ==> step_allowed(next_step_spec(step, outcome, o, n), o, n),
{
}

/// A declined step ends the sync successfully with nothing more done; a
/// failed step ends it with an error, a failed package install being
/// rolled back first, unless failures are ignored, in which case the sync
/// goes on; after a rollback the sync ends with the error.
pub proof fn law_sync_stops(o: Seq<SyncOption>, n: nat, step: SyncStep, outcome: StepOutcome)
    requires
        step != SyncStep::NoOp,
        step != SyncStep::Done,
        step != SyncStep::Cancelled,
        step != SyncStep::Aborted,
        outcome != StepOutcome::Succeeded,
    ensures
        step is Install && outcome == StepOutcome::Failed ==> next_step_spec(step, outcome, o, n) == (
        if o.contains(SyncOption::IgnoreFailure) {
            if step->Install_0 + 1 < n {
                SyncStep::Install((step->Install_0 + 1) as usize)
            } else {
                SyncStep::Done
            }
        } else {
            SyncStep::RollBack(step->Install_0)
        }),
        step is RollBack ==> next_step_spec(step, outcome, o, n) == SyncStep::Aborted,
        !(step is Install) && !(step is RollBack) && outcome == StepOutcome::Failed ==> next_step_spec(
            step,
            outcome,
            o,
            n,
        ) == SyncStep::Aborted,
        !(step is RollBack) && outcome == StepOutcome::Declined ==> next_step_spec(step, outcome, o, n)
            == SyncStep::Cancelled,
{
}


/// Whether a URL points at an archive depends neither on a query string
/// after it nor on the case of its ASCII letters.
pub proof fn law_archive_url_ignores_query_and_case(p: Seq<char>, q: Seq<char>)
    requires
        is_ascii_text(p),
        is_ascii_text(q),
        !p.contains('?'),
    ensures
        archive_url(p + seq!['?'] + q) == archive_url(p),
        archive_url(ascii_upper(p)) == archive_url(p),
{
    let l = ascii_lower(p);
    assert(!l.contains('?')) by {
        if l.contains('?') {
            let i = choose|i: int| 0 <= i < l.len() && l[i] == '?';
            assert(p[i] != '?');
        }
    }
    lemma_split_once_none(l, '?');
    let s = p + seq!['?'] + q;
    assert(is_ascii_text(s)) by {
        assert forall|i: int| 0 <= i < s.len() implies (#[trigger] s[i] as u32) < 128 by {
            if i < p.len() {
                assert(s[i] == p[i]);
            } else if i > p.len() {
                assert(s[i] == q[i - p.len() - 1]);
            }
        }
    }
    let ls = ascii_lower(s);
    assert(ls =~= l + seq!['?'] + ascii_lower(q));
    assert(is_first(ls, '?', l.len() as int));
    assert(ls.contains('?')) by {
        assert(ls[l.len() as int] == '?');
    }
    let k = choose|k: int| is_first(ls, '?', k);
    lemma_first_unique(ls, '?', l.len() as int, k);
    assert(ls.take(l.len() as int) =~= l);
    assert(lowered(s) == ls);
    assert(lowered(p) == l);
    let u = ascii_upper(p);
    assert(is_ascii_text(u)) by {
        assert forall|i: int| 0 <= i < u.len() implies (#[trigger] u[i] as u32) < 128 by {
            assert(u[i] == ascii_upper_char(p[i]));
        }
    }
    assert(ascii_lower(u) =~= l) by {
        assert forall|i: int| 0 <= i < u.len() implies #[trigger] ascii_lower(u)[i] == l[i] by {
            let c = p[i];
            assert(u[i] == ascii_upper_char(c));
            if 'a' <= c <= 'z' {
                assert(ascii_upper_char(c) as u32 == (c as u32) - 32);
            }
        }
    }
}
/// A package that goes along with a removal still goes along with a larger
/// one that does not hold it yet.
pub proof fn lemma_cascade_candidate_grows(
    installed: Seq<Package>,
    r: Seq<usize>,
    r2: Seq<usize>,
    i: int,
    escape_hold: bool,
)
    requires
        cascade_candidate(installed, r, i, escape_hold),
        forall|x: usize| r.contains(x) ==> r2.contains(x),
        !r2.contains(i as usize),
    ensures
        cascade_candidate(installed, r2, i, escape_hold),
{
    reveal(cascade_candidate);
    let k = choose|k: int|
        0 <= k < r.len() && r[k] < installed.len() && #[trigger] depends_on(installed[r[k] as int], installed[i].name@);
    assert(r.contains(r[k]));
    let k2 = choose|k2: int| 0 <= k2 < r2.len() && r2[k2] == r[k];
    assert(depends_on(installed[r2[k2] as int], installed[i].name@));
    assert forall|j: int|
        0 <= j < installed.len() && j != i && !r2.contains(j as usize) implies !#[trigger] depends_on(installed[j], installed[i].name@) by {
        assert(!r.contains(j as usize));
    }
}

/// Every package of one cascade removal is in any other cascade removal of
/// the same packages.
proof fn lemma_cascade_within(installed: Seq<Package>, sel: Seq<usize>, r1: Seq<usize>, r2: Seq<usize>, escape_hold: bool, k: int)
    requires
        cascaded(installed, sel, r1, escape_hold),
        cascaded(installed, sel, r2, escape_hold),
        0 <= k <= r1.len(),
    ensures
        forall|x: usize| r1.take(k).contains(x) ==> r2.contains(x),
    decreases k,
{
    if k > 0 {
        lemma_cascade_within(installed, sel, r1, r2, escape_hold, k - 1);
        let y = r1[k - 1];
        if k - 1 < sel.len() {
            assert(r1.take(sel.len() as int)[k - 1] == y);
            assert(r2.take(sel.len() as int)[k - 1] == y);
            assert(r2[k - 1] == y);
        } else if !r2.contains(y) {
            assert(cascade_candidate(installed, r1.take(k - 1), r1[k - 1] as int, escape_hold));
            assert forall|x: usize| r1.take(k - 1).contains(x) implies r2.contains(x) by {}
            lemma_cascade_candidate_grows(installed, r1.take(k - 1), r2, y as int, escape_hold);
        }
        assert forall|x: usize| r1.take(k).contains(x) implies r2.contains(x) by {
            let w = choose|w: int| 0 <= w < k && r1.take(k)[w] == x;
            if w < k - 1 {
                assert(r1.take(k - 1)[w] == x);
            }
        }
    }
}

/// A cascade removal is determined by the packages it starts from: any two
/// take the same packages.
pub proof fn law_cascade_determined(installed: Seq<Package>, sel: Seq<usize>, r1: Seq<usize>, r2: Seq<usize>, escape_hold: bool)
    requires
        cascaded(installed, sel, r1, escape_hold),
        cascaded(installed, sel, r2, escape_hold),
    ensures
        forall|x: usize| r1.contains(x) <==> r2.contains(x),
{
    lemma_cascade_within(installed, sel, r1, r2, escape_hold, r1.len() as int);
    lemma_cascade_within(installed, sel, r2, r1, escape_hold, r2.len() as int);
    assert(r1.take(r1.len() as int) =~= r1);
    assert(r2.take(r2.len() as int) =~= r2);
}

// ---------------------------------------------------------------------------
// Laws of selection, steps, status, cleanup and listing
// ---------------------------------------------------------------------------

/// Each choice among candidates answers one query: when every query names
/// several candidates and the `i`-th choice is among those of the `i`-th
/// query, all choices differing, the install takes the choices, in order,
/// and has used one per query.
pub proof fn law_each_choice_answers_one_query(
    qs: Seq<Seq<char>>,
    synced: Seq<Package>,
    escape_hold: bool,
    picks: Seq<usize>,
)
    requires
        qs.len() <= picks.len(),
        forall|i: int| 0 <= i < qs.len() ==> query_selection_spec(matching(#[trigger] qs[i], synced), synced, escape_hold) == 3,
        forall|i: int| 0 <= i < qs.len() ==> matching(qs[i], synced).contains(#[trigger] picks[i]),
        forall|i: int, j: int| 0 <= i < j < qs.len() ==> picks[i] != picks[j],
    ensures
        install_selection(qs, synced, escape_hold, picks) == (SelectionState::Going {
            sel: picks.take(qs.len() as int),
            used: qs.len(),
        }),
    decreases qs.len(),
{
    if qs.len() > 0 {
        let n = qs.len() - 1;
        let front = qs.drop_last();
        assert forall|i: int| 0 <= i < front.len() implies query_selection_spec(matching(#[trigger] front[i], synced), synced, escape_hold) == 3 by {
            assert(front[i] == qs[i]);
        }
        assert forall|i: int| 0 <= i < front.len() implies matching(front[i], synced).contains(#[trigger] picks[i]) by {
            assert(front[i] == qs[i]);
        }
        law_each_choice_answers_one_query(front, synced, escape_hold, picks);
        let prev = picks.take(n);
        assert(!prev.contains(picks[n])) by {
            if prev.contains(picks[n]) {
                let w = choose|w: int| 0 <= w < prev.len() && prev[w] == picks[n];
                assert(picks[w] == picks[n]);
            }
        }
        assert(query_selection_spec(matching(qs[n], synced), synced, escape_hold) == 3);
        assert(matching(qs[n], synced).contains(picks[n]));
        assert(qs.last() == qs[n]);
        assert(prev.push(picks[n]) =~= picks.take(qs.len() as int));
    } else {
        assert(picks.take(0) =~= Seq::<usize>::empty());
    }
}

/// Without `NoHashCheck`, a successful download is always followed by the
/// hash check, whatever the other options; with it, never.
pub proof fn law_download_then_hash_check(o: Seq<SyncOption>, n: nat)
    ensures
        !o.contains(SyncOption::NoHashCheck) ==> next_step_spec(SyncStep::Download, StepOutcome::Succeeded, o, n)
            == SyncStep::VerifyHashes,
        o.contains(SyncOption::NoHashCheck) ==> next_step_spec(SyncStep::Download, StepOutcome::Succeeded, o, n)
            != SyncStep::VerifyHashes,
{
}

/// A status entry's flags name the conditions of its package state's
/// flags, one for one: each state flag stands for the status flag of the
/// same name.
pub proof fn law_status_flags_keep_their_names(e: StatusEntry, s: PackageState, i: int)
    requires
        entry_of(e, s),
        0 <= i < s.flags@.len(),
    ensures
        e.flags@.len() == s.flags@.len(),
        (s.flags@[i] == PackageStateFlag::Outdated) <==> (e.flags@[i] == StatusInfoFlag::Outdated),
        (s.flags@[i] == PackageStateFlag::InstallFailed) <==> (e.flags@[i] == StatusInfoFlag::InstallFailed),
        (s.flags@[i] == PackageStateFlag::Held) <==> (e.flags@[i] == StatusInfoFlag::Held),
        (s.flags@[i] == PackageStateFlag::Deprecated) <==> (e.flags@[i] == StatusInfoFlag::Deprecated),
        (s.flags@[i] == PackageStateFlag::ManifestRemoved) <==> (e.flags@[i] == StatusInfoFlag::ManifestRemoved),
        (s.flags@[i] == PackageStateFlag::MissingDependencies) <==> (e.flags@[i]
            == StatusInfoFlag::MissingDependencies),
{
}

/// Cleanup misses no old version: every listed directory that is neither
/// the `current` link nor the current version is removed.
pub proof fn law_cleanup_misses_no_old_version(dirs: Seq<Seq<char>>, current: Seq<char>, d: Seq<char>)
    requires
        dirs.contains(d),
        d != "current"@,
        d != current,
    ensures
        dirs.filter(|x: Seq<char>| is_old_version(x, current)).contains(d),
{
    let k = choose|k: int| 0 <= k < dirs.len() && dirs[k] == d;
    dirs.lemma_filter_contains(|x: Seq<char>| is_old_version(x, current), k);
}

/// With queries given, a package that any one of them names is listed,
/// whatever that query's position, when the hold and upgrade filters pass;
/// one that none names is not.
pub proof fn law_listed_by_any_query(args: ListArgs, st: PackageState, i: int)
    requires
        0 <= i < args.query@.len(),
        args.held ==> st.held,
        args.upgradable ==> st.flags@.contains(PackageStateFlag::Outdated),
    ensures
        query_hits(args.query@[i]@, st.name@, args.explicit) ==> listed(args, st),
        (forall|j: int| 0 <= j < args.query@.len() ==> !query_hits(#[trigger] args.query@[j]@, st.name@, args.explicit))
            ==> !listed(args, st),
{
}

} // verus!
