//! `update`: fetch and update subscribed buckets.
use vstd::prelude::*;

verus! {

/// Fetch and update subscribed buckets
pub struct Args {}

} // verus!
