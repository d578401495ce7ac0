//! `bucket`: manage manifest buckets.
use vstd::prelude::*;

use crate::text::owned;

verus! {

/// Manage manifest buckets
pub struct Args {
    pub command: Command,
}

/// The bucket subcommands.
#[allow(inconsistent_fields)]
pub enum Command {
    /// Add a bucket, from a repository URL (optional for known buckets).
    Add { name: String, repo: Option<String> },
    /// List buckets; known buckets instead of added ones with `known`.
    List { known: bool },
    /// Remove bucket(s).
    Remove { name: Vec<String> },
    /// Hold bucket(s) to exclude them from updates.
    Hold { names: Vec<String> },
    /// Unhold bucket(s) to resume updates.
    Unhold { names: Vec<String> },
}

/// The repository a bucket is added from: the one given, or none (empty)
/// for a known bucket.
pub fn repo_or_known(repo: &Option<String>) -> (res: String)
    ensures
        res@ == (match repo {
            Some(r) => r@,
            None => Seq::<char>::empty(),
        }),
{
    match repo {
        Some(r) => owned(r.as_str()),
        None => String::new(),
    }
}

} // verus!
