//! Bits of the per-process risk bitmap.

use vstd::prelude::*;

verus! {

/// Executable pages were requested on an anonymous mapping.
pub const EXEC_AFTER_MMAP_ANONYMOUS: u64 = 1;

/// Protection of a region changed in a way that may bypass W^X.
pub const MEMORY_PROTECTION_CHANGE: u64 = 2;

} // verus!
