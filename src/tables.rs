//! The two state tables shared by the capture points: last known protection of
//! each mapped address, and the accumulated risk bits of each process.
//!
//! Both are bounded: the capacity is fixed when a table is made, and an insert
//! of a new key into a full table fails and leaves the table as it was.
//! Rewriting a key that is already present always succeeds.

use vstd::prelude::*;

verus! {

/// An insert of a new key met a table at capacity.
#[derive(Clone, Copy, Debug, PartialEq, Eq, Structural)]
pub struct TableFull;

/// Whether an upsert of `k` is accepted by a table holding `m` with `len`
/// entries and room for `cap`.
pub open spec fn upsert_fits<K, V>(m: Map<K, V>, len: nat, cap: nat, k: K) -> bool {
    m.contains_key(k) || len < cap
}

/// Contents and entry count of a table after an upsert of `k` ↦ `v` into one
/// holding `m` with `len` entries and room for `cap`.
pub open spec fn upserted<K, V>(m: Map<K, V>, len: nat, cap: nat, k: K, v: V) -> (Map<K, V>, nat) {
    if !upsert_fits(m, len, cap, k) {
        (m, len)
    } else if m.contains_key(k) {
        (m.insert(k, v), len)
    } else {
        (m.insert(k, v), len + 1)
    }
}

/// Upserting the same key and value twice leaves the table as the first upsert
/// left it, whether that one succeeded or not.
pub proof fn lemma_upsert_idempotent<K, V>(m: Map<K, V>, len: nat, cap: nat, k: K, v: V)
    ensures
        ({
            let (m1, len1) = upserted(m, len, cap, k, v);
            upserted(m1, len1, cap, k, v) == (m1, len1)
        }),
{
    let (m1, len1) = upserted(m, len, cap, k, v);
    if upsert_fits(m, len, cap, k) {
        assert(m1.insert(k, v) =~= m1);
    }
}

/// The entries hold exactly the pairs of `m`, each key once.
spec fn models<K, V>(entries: Seq<(K, V)>, m: Map<K, V>) -> bool {
    &&& forall|i: int, j: int| 0 <= i < j < entries.len() ==> entries[i].0 != entries[j].0
    &&& forall|i: int|
        0 <= i < entries.len() ==> #[trigger] m.contains_key(entries[i].0) && m[entries[i].0]
            == entries[i].1
    &&& forall|k: K| #[trigger]
        m.contains_key(k) ==> exists|i: int| 0 <= i < entries.len() && #[trigger] entries[i].0 == k
}

/// Writing `k` ↦ `v` into slot `slot` (the slot that holds `k`, or one past the
/// end when `k` is new) keeps the entries in step with `m.insert(k, v)`.
proof fn lemma_write_keeps_model<K, V>(
    before: Seq<(K, V)>,
    m: Map<K, V>,
    after: Seq<(K, V)>,
    k: K,
    v: V,
    slot: int,
)
    requires
        models(before, m),
        0 <= slot <= before.len(),
        slot < before.len() ==> before[slot].0 == k && after == before.update(slot, (k, v)),
        slot == before.len() ==> !m.contains_key(k) && after == before.push((k, v)),
    ensures
        models(after, m.insert(k, v)),
{
    let m2 = m.insert(k, v);
    assert forall|j: int| 0 <= j < before.len() && j != slot implies #[trigger] after[j] == before[j]
        && before[j].0 != k by {
        assert(m.contains_key(before[j].0));
    }
    assert(after[slot] == (k, v));
    assert forall|q: K| #[trigger] m2.contains_key(q) implies exists|j: int|
        0 <= j < after.len() && #[trigger] after[j].0 == q by {
        if q != k {
            let j = choose|j: int| 0 <= j < before.len() && #[trigger] before[j].0 == q;
            assert(after[j].0 == q);
        } else {
            assert(after[slot].0 == q);
        }
    }
    assert forall|j: int| 0 <= j < after.len() implies #[trigger] m2.contains_key(after[j].0)
        && m2[after[j].0] == after[j].1 by {
        if j != slot {
            assert(m.contains_key(before[j].0));
        }
    }
}

/// Address → last observed protection bits.
pub struct AddressProtectionTable {
    entries: Vec<(u64, u32)>,
    capacity: usize,
    model: Ghost<Map<u64, u32>>,
}

impl View for AddressProtectionTable {
    type V = Map<u64, u32>;

    closed spec fn view(&self) -> Map<u64, u32> {
        self.model@
    }
}

impl AddressProtectionTable {
    /// Number of entries held.
    pub closed spec fn len(&self) -> nat {
        self.entries@.len()
    }

    /// Most entries the table may hold.
    pub closed spec fn capacity(&self) -> nat {
        self.capacity as nat
    }

    pub closed spec fn wf(&self) -> bool {
        self.entries@.len() <= self.capacity && models(self.entries@, self.model@)
    }

    /// An empty table with room for `capacity` entries.
    pub fn new(capacity: usize) -> (r: Self)
        ensures
            r.wf(),
            r@ == Map::<u64, u32>::empty(),
            r.len() == 0,
            r.capacity() == capacity,
    {
        AddressProtectionTable { entries: Vec::new(), capacity, model: Ghost(Map::empty()) }
    }

    /// Number of entries held.
    pub fn size(&self) -> (r: usize)
        requires
            self.wf(),
        ensures
            r == self.len(),
    {
        self.entries.len()
    }

    fn find(&self, addr: u64) -> (r: Option<usize>)
        requires
            self.wf(),
        ensures
            r matches Some(i) ==> i < self.entries@.len() && self.entries@[i as int].0 == addr,
            r is None <==> !self@.contains_key(addr),
    {
        let mut i: usize = 0;
        while i < self.entries.len()
            invariant
                self.wf(),
                i <= self.entries@.len(),
                forall|j: int| 0 <= j < i ==> self.entries@[j].0 != addr,
            decreases self.entries@.len() - i,
        {
            if self.entries[i].0 == addr {
                return Some(i);
            }
            i = i + 1;
        }
        None
    }

    /// The last protection recorded for `addr`; `None` means unknown.
    pub fn get(&self, addr: u64) -> (r: Option<u32>)
        requires
            self.wf(),
        ensures
            r == (if self@.contains_key(addr) {
                Some(self@[addr])
            } else {
                None
            }),
    {
        match self.find(addr) {
            Some(i) => Some(self.entries[i].1),
            None => None,
        }
    }

    /// Records `prot` for `addr`, replacing what was there. Fails, changing
    /// nothing, only when `addr` is new and the table is full.
    pub fn upsert(&mut self, addr: u64, prot: u32) -> (r: Result<(), TableFull>)
        requires
            old(self).wf(),
        ensures
            final(self).wf(),
            final(self).capacity() == old(self).capacity(),
            r is Ok <==> upsert_fits(old(self)@, old(self).len(), old(self).capacity(), addr),
            (final(self)@, final(self).len()) == upserted(
                old(self)@,
                old(self).len(),
                old(self).capacity(),
                addr,
                prot,
            ),
            r is Ok ==> final(self)@ == old(self)@.insert(addr, prot),
            r is Err ==> final(self)@ == old(self)@,
            final(self).len() == (if old(self)@.contains_key(addr) || r is Err {
                old(self).len()
            } else {
                old(self).len() + 1
            }),
    {
        let ghost old_entries = self.entries@;
        match self.find(addr) {
            Some(i) => {
                self.entries.set(i, (addr, prot));
                proof {
                    lemma_write_keeps_model(old_entries, self.model@, self.entries@, addr, prot, i as int);
                }
                self.model = Ghost(self.model@.insert(addr, prot));
                Ok(())
            },
            None => {
                if self.entries.len() >= self.capacity {
                    return Err(TableFull);
                }
                self.entries.push((addr, prot));
                proof {
                    lemma_write_keeps_model(
                        old_entries,
                        self.model@,
                        self.entries@,
                        addr,
                        prot,
                        old_entries.len() as int,
                    );
                }
                self.model = Ghost(self.model@.insert(addr, prot));
                Ok(())
            },
        }
    }
}

/// Thread group id → accumulated risk bits.
pub struct ProcessRiskTable {
    entries: Vec<(u32, u64)>,
    capacity: usize,
    model: Ghost<Map<u32, u64>>,
}

impl View for ProcessRiskTable {
    type V = Map<u32, u64>;

    closed spec fn view(&self) -> Map<u32, u64> {
        self.model@
    }
}

impl ProcessRiskTable {
    /// Number of entries held.
    pub closed spec fn len(&self) -> nat {
        self.entries@.len()
    }

    /// Most entries the table may hold.
    pub closed spec fn capacity(&self) -> nat {
        self.capacity as nat
    }

    pub closed spec fn wf(&self) -> bool {
        self.entries@.len() <= self.capacity && models(self.entries@, self.model@)
    }

    /// An empty table with room for `capacity` entries.
    pub fn new(capacity: usize) -> (r: Self)
        ensures
            r.wf(),
            r@ == Map::<u32, u64>::empty(),
            r.len() == 0,
            r.capacity() == capacity,
    {
        ProcessRiskTable { entries: Vec::new(), capacity, model: Ghost(Map::empty()) }
    }

    /// Number of entries held.
    pub fn size(&self) -> (r: usize)
        requires
            self.wf(),
        ensures
            r == self.len(),
    {
        self.entries.len()
    }

    fn find(&self, tgid: u32) -> (r: Option<usize>)
        requires
            self.wf(),
        ensures
            r matches Some(i) ==> i < self.entries@.len() && self.entries@[i as int].0 == tgid,
            r is None <==> !self@.contains_key(tgid),
    {
        let mut i: usize = 0;
        while i < self.entries.len()
            invariant
                self.wf(),
                i <= self.entries@.len(),
                forall|j: int| 0 <= j < i ==> self.entries@[j].0 != tgid,
            decreases self.entries@.len() - i,
        {
            if self.entries[i].0 == tgid {
                return Some(i);
            }
            i = i + 1;
        }
        None
    }

    /// The risk bits recorded for `tgid`, if any.
    pub fn get(&self, tgid: u32) -> (r: Option<u64>)
        requires
            self.wf(),
        ensures
            r == (if self@.contains_key(tgid) {
                Some(self@[tgid])
            } else {
                None
            }),
    {
        match self.find(tgid) {
            Some(i) => Some(self.entries[i].1),
            None => None,
        }
    }

    /// Stores `risks` for `tgid`, replacing what was there. Fails, changing
    /// nothing, only when `tgid` is new and the table is full.
    pub fn upsert(&mut self, tgid: u32, risks: u64) -> (r: Result<(), TableFull>)
        requires
            old(self).wf(),
        ensures
            final(self).wf(),
            final(self).capacity() == old(self).capacity(),
            r is Ok <==> upsert_fits(old(self)@, old(self).len(), old(self).capacity(), tgid),
            (final(self)@, final(self).len()) == upserted(
                old(self)@,
                old(self).len(),
                old(self).capacity(),
                tgid,
                risks,
            ),
            r is Ok ==> final(self)@ == old(self)@.insert(tgid, risks),
            r is Err ==> final(self)@ == old(self)@,
            final(self).len() == (if old(self)@.contains_key(tgid) || r is Err {
                old(self).len()
            } else {
                old(self).len() + 1
            }),
    {
        let ghost old_entries = self.entries@;
        match self.find(tgid) {
            Some(i) => {
                self.entries.set(i, (tgid, risks));
                proof {
                    lemma_write_keeps_model(old_entries, self.model@, self.entries@, tgid, risks, i as int);
                }
                self.model = Ghost(self.model@.insert(tgid, risks));
                Ok(())
            },
            None => {
                if self.entries.len() >= self.capacity {
                    return Err(TableFull);
                }
                self.entries.push((tgid, risks));
                proof {
                    lemma_write_keeps_model(
                        old_entries,
                        self.model@,
                        self.entries@,
                        tgid,
                        risks,
                        old_entries.len() as int,
                    );
                }
                self.model = Ghost(self.model@.insert(tgid, risks));
                Ok(())
            },
        }
    }
}

/// The risk bits stored for `tgid`, absent counting as none.
pub open spec fn stored_risks(m: Map<u32, u64>, tgid: u32) -> u64 {
    if m.contains_key(tgid) {
        m[tgid]
    } else {
        0
    }
}

/// The risk map after `flag` is OR'd into the bits of `tgid`.
pub open spec fn with_risk(m: Map<u32, u64>, tgid: u32, flag: u64) -> Map<u32, u64> {
    m.insert(tgid, stored_risks(m, tgid) | flag)
}

/// OR's `flag` into the risk bits of `tgid`, an absent entry counting as zero.
///
/// This reads and then writes: it is not one atomic step, so two updates of
/// the same process made at the same moment elsewhere may lose one of them.
/// It fails, changing nothing, only when `tgid` is new and the table is full.
pub fn update_process_risks(risks: &mut ProcessRiskTable, tgid: u32, risk_flag: u64) -> (r: Result<
    (),
    TableFull,
>)
    requires
        old(risks).wf(),
    ensures
        final(risks).wf(),
        final(risks).capacity() == old(risks).capacity(),
        r is Ok <==> upsert_fits(old(risks)@, old(risks).len(), old(risks).capacity(), tgid),
        r is Ok ==> final(risks)@ == with_risk(old(risks)@, tgid, risk_flag),
        r is Err ==> final(risks)@ == old(risks)@,
        (final(risks)@, final(risks).len()) == upserted(
            old(risks)@,
            old(risks).len(),
            old(risks).capacity(),
            tgid,
            stored_risks(old(risks)@, tgid) | risk_flag,
        ),
{
    match risks.get(tgid) {
        Some(current) => risks.upsert(tgid, current | risk_flag),
        None => {
            assert(0u64 | risk_flag == risk_flag) by (bit_vector);
            risks.upsert(tgid, risk_flag)
        },
    }
}

/// OR-ing two flags into the same process gives the same bits in either
/// order: the bits held before, with both flags added.
pub proof fn lemma_risk_updates_commute(m: Map<u32, u64>, tgid: u32, a: u64, b: u64)
    ensures
        with_risk(with_risk(m, tgid, a), tgid, b) == with_risk(with_risk(m, tgid, b), tgid, a),
        with_risk(with_risk(m, tgid, a), tgid, b)[tgid] == stored_risks(m, tgid) | a | b,
        !m.contains_key(tgid) ==> with_risk(with_risk(m, tgid, a), tgid, b)[tgid] == a | b,
{
    let x = stored_risks(m, tgid);
    assert((x | a) | b == (x | b) | a) by (bit_vector);
    assert(0u64 | a | b == a | b) by (bit_vector);
    assert(with_risk(with_risk(m, tgid, a), tgid, b) =~= with_risk(with_risk(m, tgid, b), tgid, a));
}

/// An update never clears a bit: whatever the process held before, and the
/// new flag, are set afterwards.
pub proof fn lemma_risk_bits_monotonic(m: Map<u32, u64>, tgid: u32, flag: u64, bit: u64)
    requires
        stored_risks(m, tgid) & bit == bit,
    ensures
        with_risk(m, tgid, flag)[tgid] & bit == bit,
        with_risk(m, tgid, flag)[tgid] & flag == flag,
{
    let x = stored_risks(m, tgid);
    assert(x & bit == bit ==> (x | flag) & bit == bit) by (bit_vector);
    assert((x | flag) & flag == flag) by (bit_vector);
}

} // verus!
