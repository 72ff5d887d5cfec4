//! How the client chooses a transport.

use vstd::prelude::*;

verus! {

/// How the client should choose a transport implementation.
#[derive(Debug, Clone, Copy, PartialEq, Eq, Structural)]
pub enum TransportMode {
    /// Pick the best transport internally; today this means HTTP.
    Auto,
    /// Force the REST transport.
    Rest,
    /// Prefer the GraphQL transport for table reads.
    Graphql,
}

impl Default for TransportMode {
    fn default() -> (r: Self)
        ensures
            r == TransportMode::Auto,
    {
        TransportMode::Auto
    }
}

/// Transport selection policy stored on the transport.
#[derive(Debug, Clone, Copy, PartialEq, Eq, Structural)]
pub struct TransportSelection {
    pub preferred: TransportMode,
    pub graphql_fallback: bool,
    pub graphql_batch_threshold: usize,
}

impl Default for TransportSelection {
    /// Automatic mode, falling back to REST, routing lists of three or more
    /// fields through GraphQL.
    fn default() -> (r: Self)
        ensures
            r.preferred == TransportMode::Auto,
            r.graphql_fallback,
            r.graphql_batch_threshold == 3,
    {
        TransportSelection {
            preferred: TransportMode::Auto,
            graphql_fallback: true,
            graphql_batch_threshold: 3,
        }
    }
}

impl TransportSelection {
    /// A selection policy from its three settings.
    pub fn new(preferred: TransportMode, graphql_fallback: bool, graphql_batch_threshold: usize) -> (r: Self)
        ensures
            r.preferred == preferred,
            r.graphql_fallback == graphql_fallback,
            r.graphql_batch_threshold == graphql_batch_threshold,
    {
        TransportSelection { preferred, graphql_fallback, graphql_batch_threshold }
    }
}

}
