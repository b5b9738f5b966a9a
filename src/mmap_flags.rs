//! Mapping flags, as passed to `mmap`.

use vstd::prelude::*;

verus! {

/// Updates are visible to other processes that map the same region.
pub const MAP_SHARED: u32 = 0x01;

/// Updates stay private to the mapping process.
pub const MAP_PRIVATE: u32 = 0x02;

/// Map at exactly the requested address.
pub const MAP_FIXED: u32 = 0x10;

/// No backing file; the pages start zeroed.
pub const MAP_ANONYMOUS: u32 = 0x20;

} // verus!
