//! `list`: list installed packages.
use vstd::prelude::*;
use regex::Regex;

use crate::cmd::status::CellColor;
use crate::inventory::{PackageState, PackageStateFlag};
use crate::text::{str_eq, views};

verus! {

/// List installed package(s)
pub struct Args {
    /// The query strings (regular expressions unless `explicit`).
    pub query: Vec<String>,
    /// Turn regex off and use explicit matching.
    pub explicit: bool,
    /// List upgradable package(s).
    pub upgradable: bool,
    /// List held package(s).
    pub held: bool,
}

#[verifier::external_type_specification]
#[verifier::external_body]
pub struct ExRegex(Regex);

/// Whether `Regex::new` accepts the pattern: it is valid and its compiled
/// form is within the default size limit.
pub uninterp spec fn regex_compiles(pattern: Seq<char>) -> bool;

/// What `Regex::is_match` answers for the regex compiled from `pattern`:
/// whether it matches somewhere in `text`.
pub uninterp spec fn regex_matches(pattern: Seq<char>, text: Seq<char>) -> bool;

/// A regular expression compiled from a query, with its source.
pub struct Pattern {
    re: Regex,
    source: String,
}

impl Pattern {
    /// The query the pattern was compiled from.
    pub closed spec fn source(&self) -> Seq<char> {
        self.source@
    }
}

/// `Regex::new`: the regex compiled from `pattern`, `None` where it does not
/// compile.
#[verifier::external_body]
fn regex_new(pattern: &str) -> (res: Option<Regex>)
    ensures
        res is Some <==> regex_compiles(pattern@),
{
    Regex::new(pattern).ok()
}

/// `Regex::is_match` on a pattern's regex: whether it matches somewhere in
/// `text`. A pattern's regex is always the one compiled from its source,
/// since `compile` is the only way to make a pattern.
#[verifier::external_body]
fn pattern_is_match(p: &Pattern, text: &str) -> (res: bool)
    ensures
        res == regex_matches(p.source(), text@),
{
    p.re.is_match(text)
}

/// The pattern compiled from a query, `None` where it does not compile.
pub fn compile(query: &str) -> (res: Option<Pattern>)
    ensures
        match res {
            Some(p) => regex_compiles(query@) && p.source() == query@,
            None => !regex_compiles(query@),
        },
{
    match regex_new(query) {
        Some(re) => Some(Pattern { re, source: String::from_str(query) }),
        None => None,
    }
}

/// A query matches a name: by equality when explicit, else as a regular
/// expression that compiles and matches somewhere in the name.
pub open spec fn query_hits(q: Seq<char>, name: Seq<char>, explicit: bool) -> bool {
    if explicit {
        name == q
    } else {
        regex_compiles(q) && regex_matches(q, name)
    }
}

/// Whether a query matches a package name.
pub fn query_hit(q: &str, name: &str, explicit: bool) -> (res: bool)
    ensures
        res == query_hits(q@, name@, explicit),
{
    if explicit {
        str_eq(name, q)
    } else {
        match compile(q) {
            Some(p) => pattern_is_match(&p, name),
            None => false,
        }
    }
}

/// A package is listed: it is held where only held packages are asked for,
/// outdated where only upgradable ones are, and some query matches its name
/// where there are queries.
pub open spec fn listed(args: Args, st: PackageState) -> bool {
    &&& (args.held ==> st.held)
    &&& (args.upgradable ==> st.flags@.contains(PackageStateFlag::Outdated))
    &&& (args.query@.len() > 0 ==> exists|i: int|
        0 <= i < args.query@.len() && query_hits(#[trigger] args.query@[i]@, st.name@, args.explicit))
}

/// Whether the flags hold `f`.
pub fn has_state_flag(flags: &Vec<PackageStateFlag>, f: PackageStateFlag) -> (res: bool)
    ensures
        res == flags@.contains(f),
{
    let mut i: usize = 0;
    while i < flags.len()
        invariant
            i <= flags@.len(),
            forall|k: int| 0 <= k < i ==> flags@[k] != f,
        decreases flags@.len() - i,
    {
        if flags[i] == f {
            return true;
        }
        i += 1;
    }
    false
}

/// Whether a package is listed.
pub fn is_listed(args: &Args, st: &PackageState) -> (res: bool)
    ensures
        res == listed(*args, *st),
{
    if args.held && !st.held {
        return false;
    }
    if args.upgradable && !has_state_flag(&st.flags, PackageStateFlag::Outdated) {
        return false;
    }
    if args.query.len() == 0 {
        return true;
    }
    let mut i: usize = 0;
    while i < args.query.len()
        invariant
            i <= args.query@.len(),
            args.held ==> st.held,
            args.upgradable ==> st.flags@.contains(PackageStateFlag::Outdated),
            args.query@.len() > 0,
            forall|k: int| 0 <= k < i ==> !query_hits(#[trigger] args.query@[k]@, st.name@, args.explicit),
        decreases args.query@.len() - i,
    {
        if query_hit(args.query[i].as_str(), st.name.as_str(), args.explicit) {
            assert(query_hits(args.query@[i as int]@, st.name@, args.explicit));
            return true;
        }
        i += 1;
    }
    false
}

/// How a listed package is shown.
pub struct Row {
    /// Colour of the installed version: blue where held (by itself or its
    /// bucket), dimmed where outdated.
    pub version_color: CellColor,
    pub version_dimmed: bool,
    /// Colour of the bucket: yellow and dimmed for a held bucket, else green.
    pub bucket_color: CellColor,
    pub bucket_dimmed: bool,
    /// The status text and its colour.
    pub status: &'static str,
    pub status_color: CellColor,
}

/// How a listed package is shown: held (by itself or its bucket) before
/// outdated before up to date.
pub open spec fn row_spec(held: bool, bucket_held: bool, outdated: bool, r: Row) -> bool {
    &&& if held || bucket_held {
        r.version_color == CellColor::Blue && !r.version_dimmed && r.status@ == "held"@ && r.status_color
            == CellColor::Yellow
    } else if outdated {
        r.version_color == CellColor::Plain && r.version_dimmed && r.status@ == "outdated"@
            && r.status_color == CellColor::Magenta
    } else {
        r.version_color == CellColor::Plain && !r.version_dimmed && r.status@ == "\u{2713}"@
            && r.status_color == CellColor::Green
    }
    &&& if bucket_held {
        r.bucket_color == CellColor::Yellow && r.bucket_dimmed
    } else {
        r.bucket_color == CellColor::Green && !r.bucket_dimmed
    }
}

/// How a listed package is shown, given whether its bucket is held.
pub fn row_style(st: &PackageState, bucket_held: bool) -> (res: Row)
    ensures
        row_spec(st.held, bucket_held, st.flags@.contains(PackageStateFlag::Outdated), res),
{
    let outdated = has_state_flag(&st.flags, PackageStateFlag::Outdated);
    let (version_color, version_dimmed, status, status_color) = if st.held || bucket_held {
        (CellColor::Blue, false, "held", CellColor::Yellow)
    } else if outdated {
        (CellColor::Plain, true, "outdated", CellColor::Magenta)
    } else {
        (CellColor::Plain, false, "\u{2713}", CellColor::Green)
    };
    let (bucket_color, bucket_dimmed) = if bucket_held {
        (CellColor::Yellow, true)
    } else {
        (CellColor::Green, false)
    };
    Row { version_color, version_dimmed, bucket_color, bucket_dimmed, status, status_color }
}

/// Whether the bucket is among the held ones.
pub fn bucket_is_held(held_buckets: &Vec<String>, bucket: &String) -> (res: bool)
    ensures
        res == views(held_buckets@).contains(bucket@),
{
    crate::inventory::contains_name(held_buckets, bucket)
}

} // verus!
