use krust_ebpf_hooks::codec::{decode_event, encode_event, read_u32, read_u64, WIRE_SIZE};
use krust_ebpf_hooks::event::{Process, SecurityEvent};

fn sample() -> SecurityEvent {
    let mut comm = [0u8; 16];
    comm[..5].copy_from_slice(b"bash\0");
    let mut str_buf = [0u8; 256];
    for (i, b) in str_buf.iter_mut().enumerate() {
        *b = (i * 7 + 3) as u8;
    }
    SecurityEvent {
        event_type: 2,
        timestamp: 0x0102_0304_0506_0708,
        process: Process { pid: 100, tgid: 99, uid: 1000, gid: 0xdead_beef, comm },
        retval: -12,
        risk_level: 3,
        arg1: 0x1000,
        arg2: 4096,
        arg3: 7,
        arg4: u64::MAX,
        str_buf,
    }
}

fn same(a: &SecurityEvent, b: &SecurityEvent) -> bool {
    a.event_type == b.event_type
        && a.timestamp == b.timestamp
        && a.process.pid == b.process.pid
        && a.process.tgid == b.process.tgid
        && a.process.uid == b.process.uid
        && a.process.gid == b.process.gid
        && a.process.comm == b.process.comm
        && a.retval == b.retval
        && a.risk_level == b.risk_level
        && a.arg1 == b.arg1
        && a.arg2 == b.arg2
        && a.arg3 == b.arg3
        && a.arg4 == b.arg4
        && a.str_buf == b.str_buf
}

#[test]
fn round_trip_keeps_every_field() {
    let e = sample();
    let bytes = encode_event(&e);
    assert_eq!(bytes.len(), WIRE_SIZE);
    let d = decode_event(&bytes).unwrap();
    assert!(same(&e, &d));
}

#[test]
fn round_trip_with_codes_out_of_range() {
    let mut e = sample();
    e.event_type = u32::MAX;
    e.risk_level = 0xff;
    e.retval = i64::MIN;
    let d = decode_event(&encode_event(&e)).unwrap();
    assert!(same(&e, &d));
}

#[test]
fn layout_is_fixed() {
    let e = sample();
    let b = encode_event(&e);
    assert_eq!(WIRE_SIZE, 352);
    assert_eq!(&b[0..4], &[2, 0, 0, 0]);
    assert_eq!(&b[4..8], &[0, 0, 0, 0]);
    assert_eq!(&b[8..16], &[8, 7, 6, 5, 4, 3, 2, 1]);
    assert_eq!(read_u32(&b, 16), 100);
    assert_eq!(read_u32(&b, 20), 99);
    assert_eq!(read_u32(&b, 24), 1000);
    assert_eq!(read_u32(&b, 28), 0xdead_beef);
    assert_eq!(&b[32..37], b"bash\0");
    assert_eq!(read_u64(&b, 48) as i64, -12);
    assert_eq!(b[56], 3);
    assert_eq!(&b[57..64], &[0u8; 7]);
    assert_eq!(read_u64(&b, 64), 0x1000);
    assert_eq!(read_u64(&b, 72), 4096);
    assert_eq!(read_u64(&b, 80), 7);
    assert_eq!(read_u64(&b, 88), u64::MAX);
    assert_eq!(b[96], 3);
    assert_eq!(b[351], (255 * 7 + 3) as u8);
}

#[test]
fn decode_rejects_wrong_sizes() {
    assert!(decode_event(&[]).is_none());
    assert!(decode_event(&[0u8; 351]).is_none());
    assert!(decode_event(&[0u8; 353]).is_none());
    assert!(decode_event(&[0u8; 352]).is_some());
}

#[test]
fn decode_ignores_padding() {
    let e = sample();
    let mut b = encode_event(&e);
    b[5] = 0xaa;
    b[60] = 0xbb;
    let d = decode_event(&b).unwrap();
    assert!(same(&e, &d));
}
