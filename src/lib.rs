//! Capture-and-classify core of a monitor for memory-management system calls.
//!
//! Each `mmap`, `mprotect` or `munmap` call is turned into a fixed-layout
//! [`event::SecurityEvent`], classified for risk, recorded in two bounded state
//! tables and handed to a bounded, drop-on-full transport channel.

use vstd::prelude::*;

pub mod capture;
pub mod channel;
pub mod classify;
pub mod codec;
pub mod event;
pub mod mmap_flags;
pub mod mmap_prot;
pub mod risk;
pub mod tables;

verus! {

} // verus!
