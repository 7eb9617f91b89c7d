//! Cache for frequently accessed map data.
//!
//! Planned caching strategies: map metadata with a TTL, invalidated on write;
//! the full roadmap graph for pathfinding, invalidated on node and edge
//! changes; Potree hierarchy information; processing status with a short
//! TTL for polling. No cache backend is connected yet, so the cache holds
//! nothing.

use vstd::prelude::*;

verus! {

/// Cache of map data (not yet backed by a store).
#[derive(Debug)]
pub struct MapCache {}

impl MapCache {
    /// Create a new cache instance.
    pub fn new() -> (c: Self)
        ensures
            c == (MapCache {}),
    {
        Self {}
    }
}

impl Default for MapCache {
    fn default() -> (c: Self)
        ensures
            c == (MapCache {}),
    {
        Self::new()
    }
}

} // verus!
