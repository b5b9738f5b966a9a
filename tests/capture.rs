use krust_ebpf_hooks::capture::{
    decode_mmap_args, decode_mprotect_args, decode_munmap_args, handle_mmap, handle_mprotect,
    handle_munmap, probe_status, process_from_ids, DecodeError, MmapArgs, PROBE_OK,
};
use krust_ebpf_hooks::channel::{QueueFull, TransportChannel};
use krust_ebpf_hooks::event::{EventType, Process, RiskLevel, SecurityEvent};
use krust_ebpf_hooks::mmap_flags::{MAP_ANONYMOUS, MAP_PRIVATE};
use krust_ebpf_hooks::mmap_prot::{PROT_EXEC, PROT_READ, PROT_WRITE};
use krust_ebpf_hooks::risk::EXEC_AFTER_MMAP_ANONYMOUS;
use krust_ebpf_hooks::tables::{AddressProtectionTable, ProcessRiskTable};

fn ctx(words: &[u64]) -> Vec<u8> {
    let mut v = vec![0u8; 16];
    for w in words {
        v.extend_from_slice(&w.to_le_bytes());
    }
    v
}

fn mmap_ctx(addr: u64, len: u64, prot: u32, flags: u32) -> Vec<u8> {
    ctx(&[addr, len, prot as u64, flags as u64, u64::MAX, 0])
}

fn process(pid: u32, tgid: u32) -> Process {
    Process { pid, tgid, uid: 1000, gid: 1000, comm: [0u8; 16] }
}

struct Session {
    events: TransportChannel,
    mappings: AddressProtectionTable,
    risks: ProcessRiskTable,
}

fn session(cap: usize) -> Session {
    Session {
        events: TransportChannel::new(cap),
        mappings: AddressProtectionTable::new(cap),
        risks: ProcessRiskTable::new(cap),
    }
}

fn mmap(s: &mut Session, c: &[u8], p: Process, ts: u64) -> Result<SecurityEvent, DecodeError> {
    handle_mmap(c, p, ts, &mut s.events, &mut s.mappings, &mut s.risks)
}

fn event(tag: u64) -> SecurityEvent {
    SecurityEvent {
        event_type: 0,
        timestamp: tag,
        process: process(1, 1),
        retval: 0,
        risk_level: 0,
        arg1: tag,
        arg2: 0,
        arg3: 0,
        arg4: 0,
        str_buf: [0u8; 256],
    }
}

#[test]
fn anonymous_exec_mapping_is_flagged() {
    let mut s = session(8);
    let c = mmap_ctx(0x1000, 4096, PROT_EXEC, MAP_ANONYMOUS);
    assert!(mmap(&mut s, &c, process(42, 42), 5).is_ok());
    let e = s.events.dequeue().unwrap();
    assert_eq!(e.event_type, EventType::Mmap.code());
    assert_eq!(e.risk_level, RiskLevel::High.code());
    assert_eq!(e.arg1, 0x1000);
    assert_eq!(e.arg2, 4096);
    assert_eq!(e.arg3, PROT_EXEC as u64);
    assert_eq!(e.arg4, MAP_ANONYMOUS as u64);
    assert_eq!(e.timestamp, 5);
    assert_eq!(e.retval, 0);
    assert_eq!(e.process.pid, 42);
    assert_eq!(e.str_buf, [0u8; 256]);
    assert!(s.events.dequeue().is_none());
    assert_eq!(s.risks.get(42).unwrap() & EXEC_AFTER_MMAP_ANONYMOUS, EXEC_AFTER_MMAP_ANONYMOUS);
    assert_eq!(s.mappings.get(0x1000), Some(PROT_EXEC));
}

#[test]
fn private_read_write_mapping_is_low_risk() {
    let mut s = session(8);
    let c = mmap_ctx(0x2000, 4096, PROT_READ | PROT_WRITE, MAP_PRIVATE);
    assert!(mmap(&mut s, &c, process(7, 7), 1).is_ok());
    let e = s.events.dequeue().unwrap();
    assert_eq!(e.risk_level, RiskLevel::Low.code());
    assert_eq!(s.risks.get(7), None);
    assert_eq!(s.risks.size(), 0);
    assert_eq!(s.mappings.get(0x2000), Some(PROT_READ | PROT_WRITE));
}

#[test]
fn full_channel_drops_then_recovers() {
    let mut ch = TransportChannel::new(2);
    assert_eq!(ch.enqueue(event(1)), Ok(()));
    assert_eq!(ch.enqueue(event(2)), Ok(()));
    assert!(ch.is_full());
    assert_eq!(ch.enqueue(event(3)), Err(QueueFull));
    assert_eq!(ch.len(), 2);
    assert_eq!(ch.dequeue().unwrap().arg1, 1);
    assert_eq!(ch.enqueue(event(4)), Ok(()));
    assert_eq!(ch.dequeue().unwrap().arg1, 2);
    assert_eq!(ch.dequeue().unwrap().arg1, 4);
    assert!(ch.dequeue().is_none());
}

#[test]
fn risk_survives_later_safe_mapping() {
    let mut s = session(8);
    let risky = mmap_ctx(0x1000, 4096, PROT_EXEC, MAP_ANONYMOUS);
    let safe = mmap_ctx(0x5000, 4096, PROT_READ, MAP_PRIVATE);
    assert!(mmap(&mut s, &risky, process(43, 42), 1).is_ok());
    assert!(mmap(&mut s, &safe, process(44, 42), 2).is_ok());
    assert_eq!(s.risks.get(42), Some(EXEC_AFTER_MMAP_ANONYMOUS));
    assert_eq!(s.events.len(), 2);
}

#[test]
fn full_channel_does_not_stop_table_updates() {
    let mut s = Session {
        events: TransportChannel::new(0),
        mappings: AddressProtectionTable::new(4),
        risks: ProcessRiskTable::new(4),
    };
    let c = mmap_ctx(0x1000, 4096, PROT_EXEC | PROT_READ, MAP_ANONYMOUS | MAP_PRIVATE);
    let dropped = mmap(&mut s, &c, process(3, 3), 1).unwrap();
    assert_eq!(dropped.risk_level, RiskLevel::High.code());
    assert_eq!(dropped.arg1, 0x1000);
    assert_eq!(s.events.len(), 0);
    assert_eq!(s.risks.get(3), Some(EXEC_AFTER_MMAP_ANONYMOUS));
    assert_eq!(s.mappings.get(0x1000), Some(PROT_EXEC | PROT_READ));
}

#[test]
fn null_address_is_not_recorded() {
    let mut s = session(4);
    let c = mmap_ctx(0, 4096, PROT_READ, MAP_PRIVATE);
    assert!(mmap(&mut s, &c, process(3, 3), 1).is_ok());
    assert_eq!(s.mappings.size(), 0);
    assert_eq!(s.events.len(), 1);
}

#[test]
fn protection_is_recorded_by_its_low_bits() {
    let mut s = session(4);
    let c = ctx(&[0x9000, 4096, 0x1_0000_0004, 0x20, 0, 0]);
    assert!(mmap(&mut s, &c, process(3, 3), 1).is_ok());
    assert_eq!(s.mappings.get(0x9000), Some(4));
}

#[test]
fn short_context_changes_nothing() {
    let mut s = session(4);
    let c = mmap_ctx(0x1000, 4096, PROT_EXEC, MAP_ANONYMOUS);
    assert!(matches!(mmap(&mut s, &c[..63], process(42, 42), 1), Err(DecodeError)));
    assert_eq!(s.events.len(), 0);
    assert_eq!(s.risks.get(42), None);
    assert_eq!(s.mappings.get(0x1000), None);
}

#[test]
fn decoders_read_argument_words() {
    let c = ctx(&[1, 2, 3, 4, 5, 6]);
    assert_eq!(
        decode_mmap_args(&c),
        Ok(MmapArgs { addr: 1, len: 2, prot: 3, flags: 4, fd: 5, offset: 6 })
    );
    assert_eq!(decode_mmap_args(&c[..63]), Err(DecodeError));
    let m = decode_mprotect_args(&c[..40]).unwrap();
    assert_eq!((m.addr, m.len, m.prot), (1, 2, 3));
    assert_eq!(decode_mprotect_args(&c[..39]), Err(DecodeError));
    let u = decode_munmap_args(&c[..32]).unwrap();
    assert_eq!((u.addr, u.len), (1, 2));
    assert_eq!(decode_munmap_args(&c[..31]), Err(DecodeError));
}

#[test]
fn mprotect_and_munmap_are_forwarded() {
    let mut ch = TransportChannel::new(4);
    let c = ctx(&[0x1000, 4096, 7]);
    assert!(handle_mprotect(&c, process(5, 5), 10, &mut ch).is_ok());
    assert!(handle_munmap(&c[..32], process(5, 5), 11, &mut ch).is_ok());
    assert!(matches!(handle_munmap(&c[..8], process(5, 5), 12, &mut ch), Err(DecodeError)));
    let p = ch.dequeue().unwrap();
    assert_eq!(p.event_type, EventType::Mprotect.code());
    assert_eq!((p.arg1, p.arg2, p.arg3, p.arg4), (0x1000, 4096, 7, 0));
    assert_eq!(p.risk_level, RiskLevel::Low.code());
    let u = ch.dequeue().unwrap();
    assert_eq!(u.event_type, EventType::Munmap.code());
    assert_eq!((u.arg1, u.arg2, u.arg3, u.timestamp), (0x1000, 4096, 0, 11));
    assert!(ch.dequeue().is_none());
}

#[test]
fn identity_words_are_split() {
    let p = process_from_ids(0x0000_002a_0000_002b, 0x0000_0064_0000_03e8, *b"python3\0\0\0\0\0\0\0\0\0");
    assert_eq!(p.tgid, 42);
    assert_eq!(p.pid, 43);
    assert_eq!(p.uid, 1000);
    assert_eq!(p.gid, 100);
    assert_eq!(&p.comm[..8], b"python3\0");
}

#[test]
fn probe_status_is_success_even_on_faults() {
    assert_eq!(probe_status::<()>(Ok(())), PROBE_OK);
    assert_eq!(probe_status::<()>(Err(DecodeError)), PROBE_OK);
    assert_eq!(krust_ebpf_hooks::capture::panic(DecodeError), PROBE_OK);
    assert_eq!(PROBE_OK, 0);
}

#[test]
fn dropped_low_risk_event_is_still_classified() {
    let mut s = Session {
        events: TransportChannel::new(0),
        mappings: AddressProtectionTable::new(4),
        risks: ProcessRiskTable::new(4),
    };
    let c = mmap_ctx(0x4000, 4096, PROT_READ | PROT_WRITE, MAP_PRIVATE);
    let e = mmap(&mut s, &c, process(8, 8), 3).unwrap();
    assert_eq!(e.risk_level, RiskLevel::Low.code());
    assert_eq!(e.arg3, (PROT_READ | PROT_WRITE) as u64);
    assert_eq!(s.events.len(), 0);
    assert_eq!(s.risks.size(), 0);
}
