//! Memory protection bits, as passed to `mmap` and `mprotect`.

use vstd::prelude::*;

verus! {

/// No access.
pub const PROT_NONE: u32 = 0x0;

/// Pages may be read.
pub const PROT_READ: u32 = 0x1;

/// Pages may be written.
pub const PROT_WRITE: u32 = 0x2;

/// Pages may be executed.
pub const PROT_EXEC: u32 = 0x4;

} // verus!
