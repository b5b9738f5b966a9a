//! Risk classification of a single call.

use vstd::prelude::*;
use crate::event::RiskLevel;
use crate::mmap_flags::MAP_ANONYMOUS;
use crate::mmap_prot::PROT_EXEC;
use crate::risk::EXEC_AFTER_MMAP_ANONYMOUS;

verus! {

/// The mapping has no backing file.
pub open spec fn is_anonymous(flags: u64) -> bool {
    flags & (MAP_ANONYMOUS as u64) != 0
}

/// The pages are executable from the start.
pub open spec fn is_executable(prot: u64) -> bool {
    prot & (PROT_EXEC as u64) != 0
}

/// Risk of an `mmap` call with the given protection and flags, and the risk bit
/// it adds to the calling process: executable anonymous memory is high risk.
pub open spec fn mmap_risk(prot: u64, flags: u64) -> (RiskLevel, Option<u64>) {
    if is_anonymous(flags) && is_executable(prot) {
        (RiskLevel::High, Some(EXEC_AFTER_MMAP_ANONYMOUS))
    } else {
        (RiskLevel::Low, None)
    }
}

/// Classifies an `mmap` call by its requested protection and mapping flags.
pub fn classify_mmap(prot: u64, flags: u64) -> (r: (RiskLevel, Option<u64>))
    ensures
        r == mmap_risk(prot, flags),
        (is_anonymous(flags) && is_executable(prot)) ==> r == (
        RiskLevel::High,
        Some(EXEC_AFTER_MMAP_ANONYMOUS),
        ),
        !(is_anonymous(flags) && is_executable(prot)) ==> r == (RiskLevel::Low, None::<u64>),
{
    let anonymous = flags & (MAP_ANONYMOUS as u64) != 0;
    let executable = prot & (PROT_EXEC as u64) != 0;
    if anonymous && executable {
        (RiskLevel::High, Some(EXEC_AFTER_MMAP_ANONYMOUS))
    } else {
        (RiskLevel::Low, None)
    }
}

} // verus!
