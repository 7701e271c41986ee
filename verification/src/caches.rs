//! The sizing of the block cache that the tables of one engine share.

use vstd::prelude::*;

verus! {

/// The smallest block cache: 64 MiB.
pub const MIN_CAPACITY: usize = 67108864;

/// The cache settings of an engine.
#[derive(Debug, Clone, Copy, PartialEq, Eq, Structural)]
pub struct Caches {
    /// The capacity of the block cache, in bytes.
    pub block_cache_capacity: usize,
}

impl Caches {
    /// Settings for a block cache of `capacity` bytes, and of the smallest
    /// size where `capacity` is less.
    pub fn with_capacity(capacity: usize) -> (r: Caches)
        ensures
            r.block_cache_capacity == if capacity >= MIN_CAPACITY {
                capacity
            } else {
                MIN_CAPACITY
            },
    {
        if capacity >= MIN_CAPACITY {
            Caches { block_cache_capacity: capacity }
        } else {
            Caches { block_cache_capacity: MIN_CAPACITY }
        }
    }
}

impl Default for Caches {
    /// Settings for a block cache of the smallest size.
    fn default() -> (r: Caches)
        ensures
            r.block_cache_capacity == MIN_CAPACITY,
    {
        Caches::with_capacity(MIN_CAPACITY)
    }
}

} // verus!
