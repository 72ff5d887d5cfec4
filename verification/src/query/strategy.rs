//! How related records are fetched.

use vstd::prelude::*;

verus! {

/// Strategy for fetching related records.
#[derive(Debug, Clone, Copy, PartialEq, Eq, Structural)]
pub enum FetchStrategy {
    /// The library picks the best strategy.
    Auto,
    /// Keep explicit dot-walked field requests; relationships named with
    /// `include_related` are still fetched by concurrent requests, since the
    /// instance dot-walks only through real reference fields.
    DotWalk,
    /// Parallel requests per relationship, assembled on the client; returns
    /// full related records and works with any instance.
    Concurrent,
}

impl Default for FetchStrategy {
    fn default() -> (r: Self)
        ensures
            r == FetchStrategy::Auto,
    {
        FetchStrategy::Auto
    }
}

} // verus!
