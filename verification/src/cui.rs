//! Answers the user gives at a prompt.
use vstd::prelude::*;

use crate::text::{chars_of, owned, str_eq};

verus! {

/// The characters Unicode gives the property `White_Space`, which
/// `char::is_whitespace` tests.
pub open spec fn is_white_space(c: char) -> bool {
    let u = c as u32;
    ||| 0x09 <= u <= 0x0D
    ||| u == 0x20
    ||| u == 0x85
    ||| u == 0xA0
    ||| u == 0x1680
    ||| 0x2000 <= u <= 0x200A
    ||| u == 0x2028
    ||| u == 0x2029
    ||| u == 0x202F
    ||| u == 0x205F
    ||| u == 0x3000
}

/// `s` without its trailing white space.
pub open spec fn trimmed_end(s: Seq<char>) -> Seq<char>
    decreases s.len(),
{
    if s.len() > 0 && is_white_space(s.last()) {
        trimmed_end(s.drop_last())
    } else {
        s
    }
}

/// Whether a character is white space.
fn white_space(c: char) -> (res: bool)
    ensures
        res == is_white_space(c),
{
    let u = c as u32;
    (0x09 <= u && u <= 0x0D) || u == 0x20 || u == 0x85 || u == 0xA0 || u == 0x1680 || (0x2000 <= u
        && u <= 0x200A) || u == 0x2028 || u == 0x2029 || u == 0x202F || u == 0x205F || u == 0x3000
}

/// `s` without its trailing white space, white space being what Unicode
/// gives the property `White_Space` (as `str::trim_end` has it).
fn trim_end(s: &str) -> (res: &str)
    ensures
        res@ == trimmed_end(s@),
{
    let v = chars_of(s);
    let mut n: usize = v.len();
    assert(s@.take(n as int) =~= s@);
    while n > 0 && white_space(v[n - 1])
        invariant
            n <= v@.len(),
            v@ == s@,
            trimmed_end(s@.take(n as int)) == trimmed_end(s@),
        decreases n,
    {
        proof {
            assert(s@.take(n as int).drop_last() =~= s@.take(n - 1));
            assert(s@.take(n as int).last() == v@[n - 1]);
        }
        n -= 1;
    }
    proof {
        if n > 0 {
            assert(s@.take(n as int).last() == v@[n - 1]);
        }
        assert(s@.subrange(0, n as int) =~= s@.take(n as int));
    }
    s.substring_char(0, n)
}

/// The answer a line gives to a yes/no prompt, once its trailing white
/// space is gone: a single `y`/`Y` is yes, a single `n`/`N` is no, anything
/// else is no answer.
pub open spec fn answer_of(t: Seq<char>) -> Option<bool> {
    if t.len() == 1 && (t[0] == 'y' || t[0] == 'Y' || t[0] == 'n' || t[0] == 'N') {
        Some(t[0] == 'y' || t[0] == 'Y')
    } else {
        None
    }
}

/// The answer a line without trailing white space gives to a yes/no
/// prompt.
pub fn parse_answer(trimmed: &str) -> (res: Option<bool>)
    ensures
        res == answer_of(trimmed@),
{
    let v = chars_of(trimmed);
    if v.len() == 1 {
        let ch = v[0];
        if ch == 'y' || ch == 'Y' || ch == 'n' || ch == 'N' {
            return Some(ch == 'y' || ch == 'Y');
        }
    }
    None
}

/// The answer a line read at a yes/no prompt gives; the prompt is asked
/// again while there is none.
pub fn yes_no_answer(line: &str) -> (res: Option<bool>)
    ensures
        res == answer_of(trimmed_end(line@)),
{
    parse_answer(trim_end(line))
}

// ---------------------------------------------------------------------------
// Download progress of a package
// ---------------------------------------------------------------------------

/// The downloads of a package, each as (url, bytes in all, bytes so far).
pub open spec fn download_views(ctx: Seq<(String, u64, u64)>) -> Seq<(Seq<char>, u64, u64)> {
    ctx.map_values(|e: (String, u64, u64)| (e.0@, e.1, e.2))
}

/// No url occurs twice among the downloads.
pub open spec fn distinct_urls(ds: Seq<(Seq<char>, u64, u64)>) -> bool {
    forall|i: int, j: int| 0 <= i < ds.len() && 0 <= j < ds.len() && i != j ==> ds[i].0 != ds[j].0
}

/// The downloads once the one of `url` reports `total` and `now` bytes: its
/// entry is replaced, or added at the end when there is none.
pub open spec fn with_progress(ds: Seq<(Seq<char>, u64, u64)>, url: Seq<char>, total: u64, now: u64) -> Seq<(Seq<char>, u64, u64)> {
    if exists|i: int| 0 <= i < ds.len() && ds[i].0 == url {
        let i = choose|i: int| 0 <= i < ds.len() && ds[i].0 == url;
        ds.update(i, (url, total, now))
    } else {
        ds.push((url, total, now))
    }
}

/// Bytes in all over the downloads.
pub open spec fn total_bytes(ds: Seq<(Seq<char>, u64, u64)>) -> int
    decreases ds.len(),
{
    if ds.len() == 0 {
        0
    } else {
        total_bytes(ds.drop_last()) + ds.last().1
    }
}

/// Bytes so far over the downloads.
pub open spec fn done_bytes(ds: Seq<(Seq<char>, u64, u64)>) -> int
    decreases ds.len(),
{
    if ds.len() == 0 {
        0
    } else {
        done_bytes(ds.drop_last()) + ds.last().2
    }
}

/// A prefix of the downloads counts no more bytes than all of them.
proof fn lemma_bytes_prefix(ds: Seq<(Seq<char>, u64, u64)>, k: int)
    requires
        0 <= k <= ds.len(),
    ensures
        0 <= total_bytes(ds.take(k)) <= total_bytes(ds),
        0 <= done_bytes(ds.take(k)) <= done_bytes(ds),
    decreases ds.len() - k,
{
    if k < ds.len() {
        lemma_bytes_prefix(ds, k + 1);
        assert(ds.take(k + 1).drop_last() =~= ds.take(k));
    } else {
        assert(ds.take(k) =~= ds);
    }
    lemma_bytes_nonneg(ds.take(k));
}

/// Byte counts are never negative.
proof fn lemma_bytes_nonneg(ds: Seq<(Seq<char>, u64, u64)>)
    ensures
        total_bytes(ds) >= 0,
        done_bytes(ds) >= 0,
    decreases ds.len(),
{
    if ds.len() > 0 {
        lemma_bytes_nonneg(ds.drop_last());
    }
}

/// Records that the download of `url` of a package has `dlnow` of `dltotal`
/// bytes, and gives the package's bytes in all, its bytes so far, and
/// whether it is complete. A report without a total is ignored: nothing is
/// recorded and nothing is returned.
pub fn progress_step(ctx: &mut Vec<(String, u64, u64)>, url: &str, dltotal: u64, dlnow: u64) -> (res: Option<(u64, u64, bool)>)
    requires
        distinct_urls(download_views(old(ctx)@)),
        dltotal != 0 ==> total_bytes(with_progress(download_views(old(ctx)@), url@, dltotal, dlnow)) <= u64::MAX,
        dltotal != 0 ==> done_bytes(with_progress(download_views(old(ctx)@), url@, dltotal, dlnow)) <= u64::MAX,
    ensures
        dltotal == 0 ==> res is None && final(ctx)@ == old(ctx)@,
        dltotal != 0 ==> {
            let ds = with_progress(download_views(old(ctx)@), url@, dltotal, dlnow);
            &&& download_views(final(ctx)@) == ds
            &&& distinct_urls(ds)
            &&& res == Some((total_bytes(ds) as u64, done_bytes(ds) as u64, total_bytes(ds) == done_bytes(ds)))
        },
{
    if dltotal == 0 {
        return None;
    }
    let ghost before = download_views(ctx@);
    let mut i: usize = 0;
    while i < ctx.len()
        invariant
            i <= ctx@.len(),
            ctx@ == old(ctx)@,
            before == download_views(ctx@),
            forall|k: int| 0 <= k < i ==> before[k].0 != url@,
        ensures
            i < ctx@.len() ==> before[i as int].0 == url@,
        decreases ctx@.len() - i,
    {
        if str_eq(ctx[i].0.as_str(), url) {
            break;
        }
        i += 1;
    }
    let ghost ds = with_progress(before, url@, dltotal, dlnow);
    if i < ctx.len() {
        proof {
            assert(before[i as int].0 == url@);
            let c = choose|c: int| 0 <= c < before.len() && before[c].0 == url@;
            assert(c == i as int);
        }
        ctx.set(i, (owned(url), dltotal, dlnow));
    } else {
        ctx.push((owned(url), dltotal, dlnow));
    }
    assert(download_views(ctx@) =~= ds);
    assert(distinct_urls(ds)) by {
        assert forall|a: int, b: int| 0 <= a < ds.len() && 0 <= b < ds.len() && a != b implies ds[a].0 != ds[b].0 by {
            if a < before.len() && b < before.len() {
                assert(a == i || b == i || (ds[a] == before[a] && ds[b] == before[b]));
            }
        }
    }
    let mut total: u64 = 0;
    let mut now: u64 = 0;
    let mut j: usize = 0;
    while j < ctx.len()
        invariant
            j <= ctx@.len(),
            download_views(ctx@) == ds,
            total_bytes(ds) <= u64::MAX,
            done_bytes(ds) <= u64::MAX,
            total == total_bytes(ds.take(j as int)),
            now == done_bytes(ds.take(j as int)),
        decreases ctx@.len() - j,
    {
        proof {
            assert(ds.take(j + 1).drop_last() =~= ds.take(j as int));
            lemma_bytes_prefix(ds, j + 1);
        }
        total = total + ctx[j].1;
        now = now + ctx[j].2;
        j += 1;
    }
    proof {
        assert(ds.take(j as int) =~= ds);
    }
    Some((total, now, total == now))
}

} // verus!
