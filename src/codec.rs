//! Byte-exact wire form of a `SecurityEvent`.
//!
//! The layout is that of the record in C order on a little-endian machine:
//!
//! | offset | field                                   |
//! |--------|-----------------------------------------|
//! | 0      | `event_type` (4 bytes), 4 bytes padding |
//! | 8      | `timestamp`                             |
//! | 16     | `pid`, `tgid`, `uid`, `gid` (4 each)    |
//! | 32     | `comm` (16 bytes)                       |
//! | 48     | `retval`                                |
//! | 56     | `risk_level` (1 byte), 7 bytes padding  |
//! | 64     | `arg1` .. `arg4` (8 each)               |
//! | 96     | `str_buf` (256 bytes)                   |
//!
//! for 352 bytes in all. Padding is written as zero and ignored on reading.

use vstd::prelude::*;
use crate::event::{Process, SecurityEvent};

verus! {

broadcast use vstd::array::group_array_axioms;

/// Size of an encoded event.
pub const WIRE_SIZE: usize = 352;

/// Little-endian bytes of a 32-bit value.
pub open spec fn le_u32(x: u32) -> Seq<u8> {
    seq![x as u8, (x >> 8) as u8, (x >> 16) as u8, (x >> 24) as u8]
}

/// Little-endian bytes of a 64-bit value.
pub open spec fn le_u64(x: u64) -> Seq<u8> {
    seq![
        x as u8,
        (x >> 8) as u8,
        (x >> 16) as u8,
        (x >> 24) as u8,
        (x >> 32) as u8,
        (x >> 40) as u8,
        (x >> 48) as u8,
        (x >> 56) as u8,
    ]
}

/// `n` zero bytes.
pub open spec fn zeros(n: nat) -> Seq<u8> {
    Seq::new(n, |i: int| 0u8)
}

/// The 32-bit little-endian value stored at `off`.
pub open spec fn u32_at(s: Seq<u8>, off: int) -> u32 {
    (s[off] as u32) | ((s[off + 1] as u32) << 8) | ((s[off + 2] as u32) << 16) | ((s[off
        + 3] as u32) << 24)
}

/// The 64-bit little-endian value stored at `off`.
pub open spec fn u64_at(s: Seq<u8>, off: int) -> u64 {
    (s[off] as u64) | ((s[off + 1] as u64) << 8) | ((s[off + 2] as u64) << 16) | ((s[off
        + 3] as u64) << 24) | ((s[off + 4] as u64) << 32) | ((s[off + 5] as u64) << 40) | ((
    s[off + 6] as u64) << 48) | ((s[off + 7] as u64) << 56)
}

/// Byte `i` of the wire form of `e`.
pub open spec fn wire_byte(e: SecurityEvent, i: int) -> u8 {
    if i < 4 {
        le_u32(e.event_type)[i]
    } else if i < 8 {
        0
    } else if i < 16 {
        le_u64(e.timestamp)[i - 8]
    } else if i < 20 {
        le_u32(e.process.pid)[i - 16]
    } else if i < 24 {
        le_u32(e.process.tgid)[i - 20]
    } else if i < 28 {
        le_u32(e.process.uid)[i - 24]
    } else if i < 32 {
        le_u32(e.process.gid)[i - 28]
    } else if i < 48 {
        e.process.comm@[i - 32]
    } else if i < 56 {
        le_u64(#[verifier::truncate] (e.retval as u64))[i - 48]
    } else if i < 57 {
        e.risk_level
    } else if i < 64 {
        0
    } else if i < 72 {
        le_u64(e.arg1)[i - 64]
    } else if i < 80 {
        le_u64(e.arg2)[i - 72]
    } else if i < 88 {
        le_u64(e.arg3)[i - 80]
    } else if i < 96 {
        le_u64(e.arg4)[i - 88]
    } else {
        e.str_buf@[i - 96]
    }
}

/// The wire bytes of an event.
pub open spec fn wire_bytes(e: SecurityEvent) -> Seq<u8> {
    Seq::new(WIRE_SIZE as nat, |i: int| wire_byte(e, i))
}

/// `e` is the event that the wire bytes `s` hold.
pub open spec fn decodes_to(s: Seq<u8>, e: SecurityEvent) -> bool {
    &&& s.len() == WIRE_SIZE
    &&& e.event_type == u32_at(s, 0)
    &&& e.timestamp == u64_at(s, 8)
    &&& e.process.pid == u32_at(s, 16)
    &&& e.process.tgid == u32_at(s, 20)
    &&& e.process.uid == u32_at(s, 24)
    &&& e.process.gid == u32_at(s, 28)
    &&& e.process.comm@ == s.subrange(32, 48)
    &&& e.retval == #[verifier::truncate] (u64_at(s, 48) as i64)
    &&& e.risk_level == s[56]
    &&& e.arg1 == u64_at(s, 64)
    &&& e.arg2 == u64_at(s, 72)
    &&& e.arg3 == u64_at(s, 80)
    &&& e.arg4 == u64_at(s, 88)
    &&& e.str_buf@ == s.subrange(96, 352)
}

proof fn lemma_u32_round_trip(x: u32)
    ensures
        u32_at(le_u32(x), 0) == x,
{
    let b0 = x as u8;
    let b1 = (x >> 8) as u8;
    let b2 = (x >> 16) as u8;
    let b3 = (x >> 24) as u8;
    assert((b0 as u32) | ((b1 as u32) << 8) | ((b2 as u32) << 16) | ((b3 as u32) << 24) == x)
        by (bit_vector)
        requires
            b0 == x as u8,
            b1 == (x >> 8) as u8,
            b2 == (x >> 16) as u8,
            b3 == (x >> 24) as u8,
    ;
}

proof fn lemma_u64_round_trip(x: u64)
    ensures
        u64_at(le_u64(x), 0) == x,
{
    let b0 = x as u8;
    let b1 = (x >> 8) as u8;
    let b2 = (x >> 16) as u8;
    let b3 = (x >> 24) as u8;
    let b4 = (x >> 32) as u8;
    let b5 = (x >> 40) as u8;
    let b6 = (x >> 48) as u8;
    let b7 = (x >> 56) as u8;
    assert((b0 as u64) | ((b1 as u64) << 8) | ((b2 as u64) << 16) | ((b3 as u64) << 24) | ((
    b4 as u64) << 32) | ((b5 as u64) << 40) | ((b6 as u64) << 48) | ((b7 as u64) << 56) == x)
        by (bit_vector)
        requires
            b0 == x as u8,
            b1 == (x >> 8) as u8,
            b2 == (x >> 16) as u8,
            b3 == (x >> 24) as u8,
            b4 == (x >> 32) as u8,
            b5 == (x >> 40) as u8,
            b6 == (x >> 48) as u8,
            b7 == (x >> 56) as u8,
    ;
}

proof fn lemma_i64_round_trip(x: i64)
    ensures
        #[verifier::truncate] ((#[verifier::truncate] (x as u64)) as i64) == x,
{
    assert(#[verifier::truncate] ((#[verifier::truncate] (x as u64)) as i64) == x) by (bit_vector);
}

/// Decoding the wire bytes of any event gives back that event, field for field,
/// whatever the codes and the bytes of the text buffers hold.
pub proof fn lemma_wire_round_trip(e: SecurityEvent, d: SecurityEvent)
    requires
        decodes_to(wire_bytes(e), d),
    ensures
        d == e,
{
    lemma_u32_round_trip(e.event_type);
    lemma_u64_round_trip(e.timestamp);
    lemma_u32_round_trip(e.process.pid);
    lemma_u32_round_trip(e.process.tgid);
    lemma_u32_round_trip(e.process.uid);
    lemma_u32_round_trip(e.process.gid);
    lemma_u64_round_trip(#[verifier::truncate] (e.retval as u64));
    lemma_i64_round_trip(e.retval);
    lemma_u64_round_trip(e.arg1);
    lemma_u64_round_trip(e.arg2);
    lemma_u64_round_trip(e.arg3);
    lemma_u64_round_trip(e.arg4);
    assert(wire_bytes(e).subrange(32, 48) =~= e.process.comm@);
    assert(wire_bytes(e).subrange(96, 352) =~= e.str_buf@);
    assert(d.process.comm =~= e.process.comm);
    assert(d.str_buf =~= e.str_buf);
}

fn push_u32(v: &mut Vec<u8>, x: u32)
    ensures
        final(v)@ == old(v)@ + le_u32(x),
{
    v.push(x as u8);
    v.push((x >> 8) as u8);
    v.push((x >> 16) as u8);
    v.push((x >> 24) as u8);
    assert(final(v)@ =~= old(v)@ + le_u32(x));
}

fn push_u64(v: &mut Vec<u8>, x: u64)
    ensures
        final(v)@ == old(v)@ + le_u64(x),
{
    v.push(x as u8);
    v.push((x >> 8) as u8);
    v.push((x >> 16) as u8);
    v.push((x >> 24) as u8);
    v.push((x >> 32) as u8);
    v.push((x >> 40) as u8);
    v.push((x >> 48) as u8);
    v.push((x >> 56) as u8);
    assert(final(v)@ =~= old(v)@ + le_u64(x));
}

fn push_zeros(v: &mut Vec<u8>, n: usize)
    ensures
        final(v)@ == old(v)@ + zeros(n as nat),
{
    let ghost start = v@;
    let mut i: usize = 0;
    while i < n
        invariant
            i <= n,
            v@ =~= start + zeros(i as nat),
        decreases n - i,
    {
        v.push(0u8);
        i = i + 1;
    }
}

fn push_all(v: &mut Vec<u8>, src: &[u8])
    ensures
        final(v)@ == old(v)@ + src@,
{
    let ghost start = v@;
    let mut i: usize = 0;
    while i < src.len()
        invariant
            i <= src@.len(),
            v@ =~= start + src@.subrange(0, i as int),
        decreases src@.len() - i,
    {
        v.push(src[i]);
        i = i + 1;
    }
    assert(src@.subrange(0, src@.len() as int) =~= src@);
}

/// The first `n` bytes of `v` are those of the wire form of `e`.
spec fn wire_prefix(v: Seq<u8>, e: SecurityEvent, n: int) -> bool {
    v.len() == n && forall|i: int| 0 <= i < n ==> v[i] == wire_byte(e, i)
}

/// Encodes an event in its wire form.
pub fn encode_event(e: &SecurityEvent) -> (r: Vec<u8>)
    ensures
        r@ == wire_bytes(*e),
        r@.len() == WIRE_SIZE,
{
    let mut v: Vec<u8> = Vec::new();
    push_u32(&mut v, e.event_type);
    assert(wire_prefix(v@, *e, 4));
    push_zeros(&mut v, 4);
    assert(wire_prefix(v@, *e, 8));
    push_u64(&mut v, e.timestamp);
    assert(wire_prefix(v@, *e, 16));
    push_u32(&mut v, e.process.pid);
    assert(wire_prefix(v@, *e, 20));
    push_u32(&mut v, e.process.tgid);
    assert(wire_prefix(v@, *e, 24));
    push_u32(&mut v, e.process.uid);
    assert(wire_prefix(v@, *e, 28));
    push_u32(&mut v, e.process.gid);
    assert(wire_prefix(v@, *e, 32));
    push_all(&mut v, &e.process.comm);
    assert(wire_prefix(v@, *e, 48));
    push_u64(&mut v, e.retval as u64);
    assert(wire_prefix(v@, *e, 56));
    v.push(e.risk_level);
    assert(wire_prefix(v@, *e, 57));
    push_zeros(&mut v, 7);
    assert(wire_prefix(v@, *e, 64));
    push_u64(&mut v, e.arg1);
    assert(wire_prefix(v@, *e, 72));
    push_u64(&mut v, e.arg2);
    assert(wire_prefix(v@, *e, 80));
    push_u64(&mut v, e.arg3);
    assert(wire_prefix(v@, *e, 88));
    push_u64(&mut v, e.arg4);
    assert(wire_prefix(v@, *e, 96));
    push_all(&mut v, &e.str_buf);
    assert(wire_prefix(v@, *e, 352));
    assert(v@ =~= wire_bytes(*e));
    v
}

/// The 32-bit little-endian value at `off`.
pub fn read_u32(b: &[u8], off: usize) -> (r: u32)
    requires
        off + 4 <= b@.len(),
    ensures
        r == u32_at(b@, off as int),
{
    (b[off] as u32) | ((b[off + 1] as u32) << 8) | ((b[off + 2] as u32) << 16) | ((b[off
        + 3] as u32) << 24)
}

/// The 64-bit little-endian value at `off`.
pub fn read_u64(b: &[u8], off: usize) -> (r: u64)
    requires
        off + 8 <= b@.len(),
    ensures
        r == u64_at(b@, off as int),
{
    (b[off] as u64) | ((b[off + 1] as u64) << 8) | ((b[off + 2] as u64) << 16) | ((b[off
        + 3] as u64) << 24) | ((b[off + 4] as u64) << 32) | ((b[off + 5] as u64) << 40) | ((
    b[off + 6] as u64) << 48) | ((b[off + 7] as u64) << 56)
}

fn read_comm(b: &[u8], off: usize) -> (r: [u8; 16])
    requires
        off + 16 <= b@.len(),
    ensures
        r@ == b@.subrange(off as int, off + 16),
{
    let mut a = [0u8; 16];
    let len = b.len();
    let mut i: usize = 0;
    while i < 16
        invariant
            i <= 16,
            len == b@.len(),
            off + 16 <= len,
            forall|j: int| 0 <= j < i ==> a@[j] == b@[off + j],
        decreases 16 - i,
    {
        a[i] = b[off + i];
        i = i + 1;
    }
    assert(a@ =~= b@.subrange(off as int, off + 16));
    a
}

fn read_text(b: &[u8], off: usize) -> (r: [u8; 256])
    requires
        off + 256 <= b@.len(),
    ensures
        r@ == b@.subrange(off as int, off + 256),
{
    let mut a = [0u8; 256];
    let len = b.len();
    let mut i: usize = 0;
    while i < 256
        invariant
            i <= 256,
            len == b@.len(),
            off + 256 <= len,
            forall|j: int| 0 <= j < i ==> a@[j] == b@[off + j],
        decreases 256 - i,
    {
        a[i] = b[off + i];
        i = i + 1;
    }
    assert(a@ =~= b@.subrange(off as int, off + 256));
    a
}

/// Decodes an event from its wire form; `None` exactly when `b` does not have
/// the size of one.
pub fn decode_event(b: &[u8]) -> (r: Option<SecurityEvent>)
    ensures
        r is None <==> b@.len() != WIRE_SIZE,
        r matches Some(e) ==> decodes_to(b@, e),
{
    if b.len() != WIRE_SIZE {
        return None;
    }
    let process = Process {
        pid: read_u32(b, 16),
        tgid: read_u32(b, 20),
        uid: read_u32(b, 24),
        gid: read_u32(b, 28),
        comm: read_comm(b, 32),
    };
    Some(
        SecurityEvent {
            event_type: read_u32(b, 0),
            timestamp: read_u64(b, 8),
            process,
            retval: read_u64(b, 48) as i64,
            risk_level: b[56],
            arg1: read_u64(b, 64),
            arg2: read_u64(b, 72),
            arg3: read_u64(b, 80),
            arg4: read_u64(b, 88),
            str_buf: read_text(b, 96),
        },
    )
}

} // verus!
