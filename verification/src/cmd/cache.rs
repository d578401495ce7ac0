//! `cache`: package cache management.
use vstd::prelude::*;

use crate::text::{before_first, owned, prefix_before, split_once, split_once_at, str_eq};

verus! {

/// Package cache management
pub struct Args {
    pub command: Command,
}

/// The cache subcommands.
pub enum Command {
    /// List download caches matching the query.
    List { query: Option<String> },
    /// Remove download caches matching the query, or all of them.
    Remove { query: Option<String>, all: bool },
}

/// The query a listing of caches uses: the one given, or `*` for all.
pub fn list_query(query: &Option<String>) -> (res: String)
    ensures
        res@ == (match query {
            Some(q) => q@,
            None => "*"@,
        }),
{
    match query {
        Some(q) => owned(q.as_str()),
        None => String::from_str("*"),
    }
}

/// What a removal of caches removes.
pub enum RemoveScope {
    /// Every cached download.
    All,
    /// The downloads matching a query other than `*`.
    Matching(String),
    /// Nothing.
    Nothing,
}

/// What a removal of caches removes: everything with `all` or the query
/// `*`, else what the query matches, nothing without a query.
pub fn remove_scope(query: &Option<String>, all: bool) -> (res: RemoveScope)
    ensures
        all ==> res matches RemoveScope::All,
        !all ==> match query {
            Some(q) => if q@ == "*"@ {
                res matches RemoveScope::All
            } else {
                res matches RemoveScope::Matching(m) && m@ == q@
            },
            None => res matches RemoveScope::Nothing,
        },
{
    if all {
        return RemoveScope::All;
    }
    match query {
        Some(q) => if str_eq(q.as_str(), "*") {
            RemoveScope::All
        } else {
            RemoveScope::Matching(owned(q.as_str()))
        },
        None => RemoveScope::Nothing,
    }
}

/// The package and the version a cached download's file name
/// `name#version#file` gives: what precedes the first `#`, and what lies
/// between it and the next `#`; a name without `#` is all package, with an
/// empty version.
pub open spec fn cache_name_parts(f: Seq<char>) -> (Seq<char>, Seq<char>) {
    match split_once(f, '#') {
        Some(parts) => (parts.0, before_first(parts.1, '#')),
        None => (f, Seq::empty()),
    }
}

/// The package and the version of a cached download, from its file name.
pub fn parse_cache_name(file_name: &str) -> (res: (String, String))
    ensures
        (res.0@, res.1@) == cache_name_parts(file_name@),
{
    match split_once_at(file_name, '#') {
        Some((package, rest)) => {
            let version = prefix_before(rest.as_str(), '#');
            (package, version)
        },
        None => (owned(file_name), String::new()),
    }
}

/// Whether a cached download of `package` is one the query names: `*`
/// names every one, any other query the package of that name.
pub fn cache_matches(query: &str, package: &str) -> (res: bool)
    ensures
        res == (query@ == "*"@ || package@ == query@),
{
    str_eq(query, "*") || str_eq(package, query)
}

} // verus!
