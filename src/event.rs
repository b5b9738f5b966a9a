//! The records exchanged between the capture points and the consumer.

use vstd::prelude::*;

verus! {

/// The monitored system call that produced an event.
#[derive(Clone, Copy, Debug, PartialEq, Eq, Structural)]
pub enum EventType {
    Mmap,
    Mprotect,
    Munmap,
}

impl EventType {
    /// The wire code of each kind: `Mmap` 0, `Mprotect` 1, `Munmap` 2.
    pub open spec fn spec_code(self) -> u32 {
        match self {
            EventType::Mmap => 0,
            EventType::Mprotect => 1,
            EventType::Munmap => 2,
        }
    }

    pub fn code(self) -> (r: u32)
        ensures
            r == self.spec_code(),
    {
        match self {
            EventType::Mmap => 0,
            EventType::Mprotect => 1,
            EventType::Munmap => 2,
        }
    }

    /// The kind with the given wire code, if there is one.
    pub fn from_code(c: u32) -> (r: Option<EventType>)
        ensures
            r matches Some(t) ==> t.spec_code() == c,
            r is None <==> c > 2,
    {
        if c == 0 {
            Some(EventType::Mmap)
        } else if c == 1 {
            Some(EventType::Mprotect)
        } else if c == 2 {
            Some(EventType::Munmap)
        } else {
            None
        }
    }
}

/// How much an event matters, ordered `Low < Medium < High < Critical`.
#[derive(Clone, Copy, Debug, PartialEq, Eq, Structural)]
pub enum RiskLevel {
    Low,
    Medium,
    High,
    Critical,
}

impl RiskLevel {
    /// The wire code, which is also the rank in the order of severity.
    pub open spec fn spec_code(self) -> u8 {
        match self {
            RiskLevel::Low => 0,
            RiskLevel::Medium => 1,
            RiskLevel::High => 2,
            RiskLevel::Critical => 3,
        }
    }

    pub fn code(self) -> (r: u8)
        ensures
            r == self.spec_code(),
    {
        match self {
            RiskLevel::Low => 0,
            RiskLevel::Medium => 1,
            RiskLevel::High => 2,
            RiskLevel::Critical => 3,
        }
    }

    /// The level with the given wire code, if there is one.
    pub fn from_code(c: u8) -> (r: Option<RiskLevel>)
        ensures
            r matches Some(l) ==> l.spec_code() == c,
            r is None <==> c > 3,
    {
        if c == 0 {
            Some(RiskLevel::Low)
        } else if c == 1 {
            Some(RiskLevel::Medium)
        } else if c == 2 {
            Some(RiskLevel::High)
        } else if c == 3 {
            Some(RiskLevel::Critical)
        } else {
            None
        }
    }

    /// Whether `self` is strictly less severe than `other`.
    pub fn is_below(self, other: RiskLevel) -> (r: bool)
        ensures
            r == (self.spec_code() < other.spec_code()),
    {
        self.code() < other.code()
    }
}

/// Identity of the process that made a monitored call.
#[derive(Clone, Copy, Debug)]
pub struct Process {
    pub pid: u32,
    /// Thread group id: the process id as user space sees it.
    pub tgid: u32,
    pub uid: u32,
    pub gid: u32,
    /// Command name, NUL-terminated, at most 16 bytes with the terminator.
    pub comm: [u8; 16],
}

/// One captured system call, as it crosses to user space.
///
/// `event_type` and `risk_level` hold the codes of `EventType` and `RiskLevel`;
/// the meaning of `arg1` to `arg4` depends on the kind of event.
#[derive(Clone, Copy, Debug)]
pub struct SecurityEvent {
    pub event_type: u32,
    /// Monotonic nanoseconds since boot.
    pub timestamp: u64,
    pub process: Process,
    /// Result of the call, or 0 while it is not yet known.
    pub retval: i64,
    pub risk_level: u8,
    pub arg1: u64,
    pub arg2: u64,
    pub arg3: u64,
    pub arg4: u64,
    /// Room for a path or other text; zero where unused.
    pub str_buf: [u8; 256],
}

} // verus!
