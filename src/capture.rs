//! The capture points: one handler per monitored system call.
//!
//! A handler is given the raw bytes of the tracepoint's context, the identity
//! of the calling process and the time, decodes the call's arguments,
//! classifies the call, sends the event and updates the state tables. Full
//! tables and a full channel are skipped silently; only a context too short to
//! hold the arguments fails, and then nothing is sent or changed.

use vstd::prelude::*;
use crate::channel::TransportChannel;
use crate::classify::{classify_mmap, mmap_risk};
use crate::codec::{read_u64, u64_at};
use crate::event::{EventType, Process, RiskLevel, SecurityEvent};
use crate::tables::{
    update_process_risks, stored_risks, upserted, AddressProtectionTable, ProcessRiskTable,
};

verus! {

broadcast use vstd::array::group_array_axioms;

/// Offset of the system call's arguments in a syscall-entry tracepoint
/// context, after the common header and the syscall number.
pub const SYSCALL_ARGS_OFFSET: usize = 16;

/// Status a capture point returns to the kernel. It is the same whatever
/// became of the event: observing a call never alters its outcome.
pub const PROBE_OK: u32 = 0;

/// The context is too short to hold the arguments of the call.
#[derive(Clone, Copy, Debug, PartialEq, Eq, Structural)]
pub struct DecodeError;

/// Arguments of `mmap`, each as a 64-bit word.
#[derive(Clone, Copy, Debug, PartialEq, Eq, Structural)]
pub struct MmapArgs {
    pub addr: u64,
    pub len: u64,
    pub prot: u64,
    pub flags: u64,
    pub fd: u64,
    pub offset: u64,
}

/// Arguments of `mprotect`.
#[derive(Clone, Copy, Debug, PartialEq, Eq, Structural)]
pub struct MprotectArgs {
    pub addr: u64,
    pub len: u64,
    pub prot: u64,
}

/// Arguments of `munmap`.
#[derive(Clone, Copy, Debug, PartialEq, Eq, Structural)]
pub struct MunmapArgs {
    pub addr: u64,
    pub len: u64,
}

/// The `n`-th argument word of a context.
pub open spec fn arg_word(ctx: Seq<u8>, n: int) -> u64 {
    u64_at(ctx, SYSCALL_ARGS_OFFSET + 8 * n)
}

/// Whether a context holds `n` argument words.
pub open spec fn holds_args(ctx: Seq<u8>, n: int) -> bool {
    ctx.len() >= SYSCALL_ARGS_OFFSET + 8 * n
}

pub open spec fn mmap_args_of(ctx: Seq<u8>) -> MmapArgs {
    MmapArgs {
        addr: arg_word(ctx, 0),
        len: arg_word(ctx, 1),
        prot: arg_word(ctx, 2),
        flags: arg_word(ctx, 3),
        fd: arg_word(ctx, 4),
        offset: arg_word(ctx, 5),
    }
}

fn read_arg(ctx: &[u8], n: usize) -> (r: u64)
    requires
        n < 6,
        holds_args(ctx@, n + 1),
    ensures
        r == arg_word(ctx@, n as int),
{
    read_u64(ctx, SYSCALL_ARGS_OFFSET + 8 * n)
}

/// Reads the arguments of `mmap` from a tracepoint context.
pub fn decode_mmap_args(ctx: &[u8]) -> (r: Result<MmapArgs, DecodeError>)
    ensures
        r is Err <==> !holds_args(ctx@, 6),
        r is Ok ==> r == Ok::<MmapArgs, DecodeError>(mmap_args_of(ctx@)),
{
    if ctx.len() < SYSCALL_ARGS_OFFSET + 48 {
        return Err(DecodeError);
    }
    Ok(
        MmapArgs {
            addr: read_arg(ctx, 0),
            len: read_arg(ctx, 1),
            prot: read_arg(ctx, 2),
            flags: read_arg(ctx, 3),
            fd: read_arg(ctx, 4),
            offset: read_arg(ctx, 5),
        },
    )
}

/// Reads the arguments of `mprotect` from a tracepoint context.
pub fn decode_mprotect_args(ctx: &[u8]) -> (r: Result<MprotectArgs, DecodeError>)
    ensures
        r is Err <==> !holds_args(ctx@, 3),
        r is Ok ==> r == Ok::<MprotectArgs, DecodeError>(
            MprotectArgs { addr: arg_word(ctx@, 0), len: arg_word(ctx@, 1), prot: arg_word(ctx@, 2) },
        ),
{
    if ctx.len() < SYSCALL_ARGS_OFFSET + 24 {
        return Err(DecodeError);
    }
    Ok(MprotectArgs { addr: read_arg(ctx, 0), len: read_arg(ctx, 1), prot: read_arg(ctx, 2) })
}

/// Reads the arguments of `munmap` from a tracepoint context.
pub fn decode_munmap_args(ctx: &[u8]) -> (r: Result<MunmapArgs, DecodeError>)
    ensures
        r is Err <==> !holds_args(ctx@, 2),
        r is Ok ==> r == Ok::<MunmapArgs, DecodeError>(
            MunmapArgs { addr: arg_word(ctx@, 0), len: arg_word(ctx@, 1) },
        ),
{
    if ctx.len() < SYSCALL_ARGS_OFFSET + 16 {
        return Err(DecodeError);
    }
    Ok(MunmapArgs { addr: read_arg(ctx, 0), len: read_arg(ctx, 1) })
}

/// Builds the identity of a process from the packed words that the kernel
/// hands out: thread group id in the high half of `pid_tgid` and pid in the low
/// half; gid in the high half of `uid_gid` and uid in the low half.
pub fn process_from_ids(pid_tgid: u64, uid_gid: u64, comm: [u8; 16]) -> (r: Process)
    ensures
        r.tgid == (pid_tgid >> 32) as u32,
        r.pid == (pid_tgid & 0xffff_ffff) as u32,
        r.uid == (uid_gid & 0xffff_ffff) as u32,
        r.gid == (uid_gid >> 32) as u32,
        r.comm == comm,
{
    Process {
        pid: (pid_tgid & 0xffff_ffff) as u32,
        tgid: (pid_tgid >> 32) as u32,
        uid: (uid_gid & 0xffff_ffff) as u32,
        gid: (uid_gid >> 32) as u32,
        comm,
    }
}

/// `e` is the event captured for a call of kind `kind`: return value not yet
/// known, text buffer zeroed.
pub open spec fn is_captured(
    e: SecurityEvent,
    kind: EventType,
    timestamp: u64,
    process: Process,
    level: RiskLevel,
    args: (u64, u64, u64, u64),
) -> bool {
    &&& e.event_type == kind.spec_code()
    &&& e.timestamp == timestamp
    &&& e.process == process
    &&& e.retval == 0
    &&& e.risk_level == level.spec_code()
    &&& e.arg1 == args.0
    &&& e.arg2 == args.1
    &&& e.arg3 == args.2
    &&& e.arg4 == args.3
    &&& e.str_buf@ == Seq::new(256, |i: int| 0u8)
}

/// Builds the event for one captured call.
pub fn build_event(
    kind: EventType,
    timestamp: u64,
    process: Process,
    level: RiskLevel,
    args: (u64, u64, u64, u64),
) -> (r: SecurityEvent)
    ensures
        is_captured(r, kind, timestamp, process, level, args),
{
    let e = SecurityEvent {
        event_type: kind.code(),
        timestamp,
        process,
        retval: 0,
        risk_level: level.code(),
        arg1: args.0,
        arg2: args.1,
        arg3: args.2,
        arg4: args.3,
        str_buf: [0u8; 256],
    };
    assert(e.str_buf@ =~= Seq::new(256, |i: int| 0u8));
    e
}

/// What offering `e` does to a channel that held `before`: appended when
/// there was room, dropped otherwise.
pub open spec fn offered(before: Seq<SecurityEvent>, cap: nat, after: Seq<SecurityEvent>, e: SecurityEvent) -> bool {
    if before.len() < cap {
        after == before.push(e)
    } else {
        after == before
    }
}

/// Offers an event to the channel, which drops it when full.
fn send(events: &mut TransportChannel, e: SecurityEvent)
    requires
        old(events).wf(),
    ensures
        final(events).wf(),
        final(events).capacity() == old(events).capacity(),
        offered(old(events)@, old(events).capacity(), final(events)@, e),
{
    match events.enqueue(e) {
        Ok(()) => {},
        Err(_) => {},
    }
}

/// Handles one `mmap` call and returns the event it offered to the channel.
///
/// The call is classified by `classify_mmap`, and its event (arguments address,
/// length, protection and flags) is offered to the channel. A high-risk call
/// OR's its risk bit into the calling thread group's entry, and a call with a
/// nonzero address records the requested protection (its low 32 bits) for that
/// address. A full table or channel skips that step alone.
pub fn handle_mmap(
    ctx: &[u8],
    process: Process,
    timestamp: u64,
    events: &mut TransportChannel,
    memory_mappings: &mut AddressProtectionTable,
    process_risks: &mut ProcessRiskTable,
) -> (r: Result<SecurityEvent, DecodeError>)
    requires
        old(events).wf(),
        old(memory_mappings).wf(),
        old(process_risks).wf(),
    ensures
        final(events).wf(),
        final(memory_mappings).wf(),
        final(process_risks).wf(),
        final(events).capacity() == old(events).capacity(),
        final(memory_mappings).capacity() == old(memory_mappings).capacity(),
        final(process_risks).capacity() == old(process_risks).capacity(),
        r is Err <==> !holds_args(ctx@, 6),
        r is Err ==> final(events)@ == old(events)@ && final(memory_mappings)@ == old(memory_mappings)@
            && final(memory_mappings).len() == old(memory_mappings).len() && final(process_risks)@
            == old(process_risks)@ && final(process_risks).len() == old(process_risks).len(),
        r matches Ok(e) ==> ({
            let a = mmap_args_of(ctx@);
            let level = mmap_risk(a.prot, a.flags).0;
            let flag = mmap_risk(a.prot, a.flags).1;
            &&& is_captured(e, EventType::Mmap, timestamp, process, level, (a.addr, a.len, a.prot, a.flags))
            &&& offered(old(events)@, old(events).capacity(), final(events)@, e)
            &&& flag is None ==> final(process_risks)@ == old(process_risks)@
                && final(process_risks).len() == old(process_risks).len()
            &&& flag matches Some(f) ==> (final(process_risks)@, final(process_risks).len())
                == upserted(
                old(process_risks)@,
                old(process_risks).len(),
                old(process_risks).capacity(),
                process.tgid,
                stored_risks(old(process_risks)@, process.tgid) | f,
            )
            &&& a.addr == 0 ==> final(memory_mappings)@ == old(memory_mappings)@
                && final(memory_mappings).len() == old(memory_mappings).len()
            &&& a.addr != 0 ==> (final(memory_mappings)@, final(memory_mappings).len())
                == upserted(
                old(memory_mappings)@,
                old(memory_mappings).len(),
                old(memory_mappings).capacity(),
                a.addr,
                #[verifier::truncate] (a.prot as u32),
            )
        }),
{
    let args = match decode_mmap_args(ctx) {
        Ok(a) => a,
        Err(e) => return Err(e),
    };
    let (level, flag) = classify_mmap(args.prot, args.flags);
    if let Some(f) = flag {
        let _ = update_process_risks(process_risks, process.tgid, f);
    }
    let event = build_event(
        EventType::Mmap,
        timestamp,
        process,
        level,
        (args.addr, args.len, args.prot, args.flags),
    );
    send(events, event);
    if args.addr != 0 {
        let _ = memory_mappings.upsert(args.addr, args.prot as u32);
    }
    Ok(event)
}

/// Handles one `mprotect` call: its event (address, length, new protection) is
/// offered at low risk and returned; the tables are not consulted.
pub fn handle_mprotect(ctx: &[u8], process: Process, timestamp: u64, events: &mut TransportChannel) -> (r: Result<SecurityEvent, DecodeError>)
    requires
        old(events).wf(),
    ensures
        final(events).wf(),
        final(events).capacity() == old(events).capacity(),
        r is Err <==> !holds_args(ctx@, 3),
        r is Err ==> final(events)@ == old(events)@,
        r matches Ok(e) ==> is_captured(
            e,
            EventType::Mprotect,
            timestamp,
            process,
            RiskLevel::Low,
            (arg_word(ctx@, 0), arg_word(ctx@, 1), arg_word(ctx@, 2), 0),
        ) && offered(old(events)@, old(events).capacity(), final(events)@, e),
{
    let args = match decode_mprotect_args(ctx) {
        Ok(a) => a,
        Err(e) => return Err(e),
    };
    let event = build_event(
        EventType::Mprotect,
        timestamp,
        process,
        RiskLevel::Low,
        (args.addr, args.len, args.prot, 0),
    );
    send(events, event);
    Ok(event)
}

/// Handles one `munmap` call: its event (address, length) is offered at low
/// risk and returned; recorded protections are kept, being hints and not a
/// map of memory.
pub fn handle_munmap(ctx: &[u8], process: Process, timestamp: u64, events: &mut TransportChannel) -> (r: Result<SecurityEvent, DecodeError>)
    requires
        old(events).wf(),
    ensures
        final(events).wf(),
        final(events).capacity() == old(events).capacity(),
        r is Err <==> !holds_args(ctx@, 2),
        r is Err ==> final(events)@ == old(events)@,
        r matches Ok(e) ==> is_captured(
            e,
            EventType::Munmap,
            timestamp,
            process,
            RiskLevel::Low,
            (arg_word(ctx@, 0), arg_word(ctx@, 1), 0, 0),
        ) && offered(old(events)@, old(events).capacity(), final(events)@, e),
{
    let args = match decode_munmap_args(ctx) {
        Ok(a) => a,
        Err(e) => return Err(e),
    };
    let event = build_event(
        EventType::Munmap,
        timestamp,
        process,
        RiskLevel::Low,
        (args.addr, args.len, 0, 0),
    );
    send(events, event);
    Ok(event)
}

/// Fault path of a capture point: the event is dropped, nothing is sent or
/// changed, and the probe still reports success so that the monitored call
/// goes on unaffected.
pub fn panic(_fault: DecodeError) -> (r: u32)
    ensures
        r == PROBE_OK,
{
    PROBE_OK
}

/// Status a capture point returns to the kernel for the result of its
/// handler: success in every case, a dropped event included.
pub fn probe_status<T>(r: Result<T, DecodeError>) -> (s: u32)
    ensures
        s == PROBE_OK,
{
    match r {
        Ok(_) => PROBE_OK,
        Err(e) => self::panic(e),
    }
}

} // verus!
