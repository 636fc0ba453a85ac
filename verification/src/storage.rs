//! Footprint-recording storage adapter: wraps an immutable snapshot, records
//! one access per ledger key as the execution engine touches it, classifies
//! each key read-only or read-write, and exposes the footprint and the delta
//! map once execution ends. A pure in-memory recording layer: no I/O.

use vstd::prelude::*;

use crate::bytes_eq;
use crate::snapshot::{Delta, DeltaRow, DeltaRowV, delta_assoc, LedgerEntry, LedgerEntryV, Snapshot};
use crate::tx::clone_bytes;

verus! {

/// The access recorded for one ledger key: read-only, or read-write with
/// the key's post-execution value (`None` is a deletion marker).
pub enum Access {
    ReadOnly,
    ReadWrite(Option<LedgerEntry>),
}

/// Mathematical view of an `Access`.
pub enum AccessV {
    ReadOnly,
    ReadWrite(Option<LedgerEntryV>),
}

impl View for Access {
    type V = AccessV;

    open spec fn view(&self) -> AccessV {
        match self {
            Access::ReadOnly => AccessV::ReadOnly,
            Access::ReadWrite(v) => AccessV::ReadWrite(
                match v {
                    Option::None => Option::None,
                    Option::Some(e) => Option::Some(e@),
                },
            ),
        }
    }
}

/// One access record: a ledger key and what was recorded for it.
pub struct AccessRow {
    pub key: Vec<u8>,
    pub access: Access,
}

/// Mathematical view of an `AccessRow`.
pub struct AccessRowV {
    pub key: Seq<u8>,
    pub access: AccessV,
}

impl View for AccessRow {
    type V = AccessRowV;

    open spec fn view(&self) -> AccessRowV {
        AccessRowV { key: self.key@, access: self.access@ }
    }
}

/// The views of a sequence of access rows.
pub open spec fn access_rows_view(s: Seq<AccessRow>) -> Seq<AccessRowV> {
    s.map_values(|r: AccessRow| r@)
}

/// At most one access record per ledger key.
pub open spec fn unique_access_keys(s: Seq<AccessRowV>) -> bool {
    forall|i: int, j: int| 0 <= i < j < s.len() ==> s[i].key != s[j].key
}

/// The access bound to each key by a record list.
pub open spec fn access_map(s: Seq<AccessRowV>) -> Map<Seq<u8>, AccessV>
    decreases s.len(),
{
    if s.len() == 0 {
        Map::empty()
    } else {
        access_map(s.drop_last()).insert(s.last().key, s.last().access)
    }
}

/// A record's key is bound to its access when keys are unique.
proof fn lemma_access_map_index(s: Seq<AccessRowV>, i: int)
    requires
        unique_access_keys(s),
        0 <= i < s.len(),
    ensures
        access_map(s).contains_key(s[i].key),
        access_map(s)[s[i].key] == s[i].access,
    decreases s.len(),
{
    if i == s.len() - 1 {
    } else {
        assert(unique_access_keys(s.drop_last()));
        assert(s.drop_last()[i] == s[i]);
        lemma_access_map_index(s.drop_last(), i);
        assert(s[i].key != s.last().key);
    }
}

/// A key bound by no record is absent from the map.
proof fn lemma_access_map_absent(s: Seq<AccessRowV>, k: Seq<u8>)
    requires
        forall|i: int| 0 <= i < s.len() ==> s[i].key != k,
    ensures
        !access_map(s).contains_key(k),
    decreases s.len(),
{
    if s.len() > 0 {
        assert(forall|i: int| 0 <= i < s.drop_last().len() ==> s.drop_last()[i].key != k);
        lemma_access_map_absent(s.drop_last(), k);
    }
}

/// Appending a fresh record inserts its binding.
proof fn lemma_access_map_push(s: Seq<AccessRowV>, r: AccessRowV)
    ensures
        access_map(s.push(r)) == access_map(s).insert(r.key, r.access),
{
    assert(s.push(r).drop_last() =~= s);
    assert(s.push(r).last() == r);
}

/// Replacing the access of record `i` updates that key's binding.
proof fn lemma_access_map_update(s: Seq<AccessRowV>, i: int, a: AccessV)
    requires
        unique_access_keys(s),
        0 <= i < s.len(),
    ensures
        access_map(s.update(i, AccessRowV { key: s[i].key, access: a })) == access_map(s).insert(
            s[i].key,
            a,
        ),
    decreases s.len(),
{
    let r2 = AccessRowV { key: s[i].key, access: a };
    if i == s.len() - 1 {
        assert(s.update(i, r2).drop_last() =~= s.drop_last());
        assert(s.update(i, r2).last() == r2);
        assert(access_map(s.drop_last()).insert(s[i].key, a) =~= access_map(s).insert(
            s[i].key,
            a,
        ));
    } else {
        assert(unique_access_keys(s.drop_last()));
        assert(s.drop_last()[i] == s[i]);
        lemma_access_map_update(s.drop_last(), i, a);
        assert(s.update(i, r2).drop_last() =~= s.drop_last().update(i, r2));
        assert(s.update(i, r2).last() == s.last());
        assert(s[i].key != s.last().key);
        assert(access_map(s.drop_last()).insert(s[i].key, a).insert(
            s.last().key,
            s.last().access,
        ) =~= access_map(s).insert(s[i].key, a));
    }
}

/// The read-only half of a footprint: the keys recorded read-only.
pub open spec fn ro_of(m: Map<Seq<u8>, AccessV>) -> Set<Seq<u8>> {
    Set::new(|k: Seq<u8>| m.contains_key(k) && m[k] is ReadOnly)
}

/// The read-write half of a footprint: the keys recorded read-write.
pub open spec fn rw_of(m: Map<Seq<u8>, AccessV>) -> Set<Seq<u8>> {
    Set::new(|k: Seq<u8>| m.contains_key(k) && m[k] is ReadWrite)
}

/// The delta map of an access map: the read-write bindings with their
/// final values; read-only accesses never appear.
pub open spec fn delta_of(m: Map<Seq<u8>, AccessV>) -> Map<Seq<u8>, Option<LedgerEntryV>> {
    Map::new(
        (|k: Seq<u8>| m.contains_key(k) && m[k] is ReadWrite),
        (|k: Seq<u8>| m[k]->ReadWrite_0),
    )
}

/// Footprint partition: the read-only and read-write key sets of any access
/// map are disjoint, and their union is exactly the set of keys touched.
pub proof fn lemma_footprint_partition(m: Map<Seq<u8>, AccessV>)
    ensures
        ro_of(m).intersect(rw_of(m)) == Set::<Seq<u8>>::empty(),
        ro_of(m).union(rw_of(m)) == m.dom(),
{
    assert(ro_of(m).intersect(rw_of(m)) =~= Set::<Seq<u8>>::empty());
    assert(ro_of(m).union(rw_of(m)) =~= m.dom());
}

/// The footprint-recording storage adapter: an immutable base snapshot plus
/// the access records of the current execution.
pub struct Storage {
    base: Snapshot,
    records: Vec<AccessRow>,
}

impl Storage {
    /// The base snapshot's map.
    pub closed spec fn base_map(&self) -> Map<Seq<u8>, LedgerEntryV> {
        self.base@
    }

    /// The views of the access records, in recording order.
    pub closed spec fn recs(&self) -> Seq<AccessRowV> {
        access_rows_view(self.records@)
    }

    /// The access recorded per touched key.
    pub open spec fn accesses(&self) -> Map<Seq<u8>, AccessV> {
        access_map(self.recs())
    }

    /// Well-formed: the base snapshot is well-formed and at most one access
    /// record exists per ledger key.
    pub closed spec fn wf(&self) -> bool {
        &&& self.base.wf()
        &&& unique_access_keys(self.recs())
    }

    /// The value an execution sees for a key: a pending write if one was
    /// recorded, the base snapshot's entry otherwise.
    pub open spec fn visible(&self, k: Seq<u8>) -> Option<LedgerEntryV> {
        if self.accesses().contains_key(k) && self.accesses()[k] is ReadWrite {
            self.accesses()[k]->ReadWrite_0
        } else if self.base_map().contains_key(k) {
            Option::Some(self.base_map()[k])
        } else {
            Option::None
        }
    }

    /// Wraps a snapshot with an empty record set.
    pub fn with_recording_footprint(base: Snapshot) -> (r: Storage)
        requires
            base.wf(),
        ensures
            r.wf(),
            r.base_map() == base@,
            r.accesses() == Map::<Seq<u8>, AccessV>::empty(),
    {
        let r = Storage { base, records: Vec::new() };
        proof {
            assert(r.recs() =~= Seq::<AccessRowV>::empty());
        }
        r
    }

    /// The index of the record for `key`, if any.
    fn find_record(&self, key: &Vec<u8>) -> (r: Option<usize>)
        ensures
            match r {
                Option::Some(i) => i < self.recs().len() && self.recs()[i as int].key == key@,
                Option::None => forall|i: int|
                    0 <= i < self.recs().len() ==> self.recs()[i].key != key@,
            },
    {
        let mut i: usize = 0;
        while i < self.records.len()
            invariant
                i <= self.recs().len(),
                forall|j: int| 0 <= j < i ==> self.recs()[j].key != key@,
            decreases self.recs().len() - i,
        {
            if bytes_eq(&self.records[i].key, key) {
                return Option::Some(i);
            }
            i += 1;
        }
        Option::None
    }

    /// Reads a key on behalf of the execution engine, recording a read-only
    /// access the first time the key is touched. Returns the value the
    /// execution sees, or signals that the key is absent — whether that is
    /// fatal is the engine's decision.
    pub fn get(&mut self, key: &Vec<u8>) -> (r: Option<LedgerEntry>)
        requires
            old(self).wf(),
        ensures
            final(self).wf(),
            final(self).base_map() == old(self).base_map(),
            match r {
                Option::Some(e) => old(self).visible(key@) == Option::Some(e@),
                Option::None => old(self).visible(key@) is None,
            },
            final(self).accesses() == if old(self).accesses().contains_key(key@) {
                old(self).accesses()
            } else {
                old(self).accesses().insert(key@, AccessV::ReadOnly)
            },
    {
        match self.find_record(key) {
            Option::Some(i) => {
                proof {
                    lemma_access_map_index(self.recs(), i as int);
                }
                match &self.records[i].access {
                    Access::ReadWrite(v) => match v {
                        Option::Some(e) => Option::Some(e.dup()),
                        Option::None => Option::None,
                    },
                    Access::ReadOnly => {
                        match self.base.lookup(key) {
                            Option::Some(e) => Option::Some(e.dup()),
                            Option::None => Option::None,
                        }
                    }
                }
            }
            Option::None => {
                proof {
                    lemma_access_map_absent(self.recs(), key@);
                    lemma_access_map_push(
                        self.recs(),
                        AccessRowV { key: key@, access: AccessV::ReadOnly },
                    );
                }
                let looked = match self.base.lookup(key) {
                    Option::Some(e) => Option::Some(e.dup()),
                    Option::None => Option::None,
                };
                self.records.push(
                    AccessRow { key: clone_bytes(key), access: Access::ReadOnly },
                );
                proof {
                    assert(self.recs() =~= old(self).recs().push(
                        AccessRowV { key: key@, access: AccessV::ReadOnly },
                    ));
                }
                looked
            }
        }
    }

    /// Writes a key on behalf of the execution engine: upgrades or creates
    /// its record as read-write and stores the new value.
    pub fn put(&mut self, key: &Vec<u8>, entry: LedgerEntry)
        requires
            old(self).wf(),
        ensures
            final(self).wf(),
            final(self).base_map() == old(self).base_map(),
            final(self).accesses() == old(self).accesses().insert(
                key@,
                AccessV::ReadWrite(Option::Some(entry@)),
            ),
    {
        self.set_access(key, Access::ReadWrite(Option::Some(entry)));
    }

    /// Deletes a key on behalf of the execution engine: upgrades or creates
    /// its record as read-write with a deletion marker.
    pub fn del(&mut self, key: &Vec<u8>)
        requires
            old(self).wf(),
        ensures
            final(self).wf(),
            final(self).base_map() == old(self).base_map(),
            final(self).accesses() == old(self).accesses().insert(
                key@,
                AccessV::ReadWrite(Option::None),
            ),
    {
        self.set_access(key, Access::ReadWrite(Option::None));
    }

    /// Records `access` for `key`, replacing any earlier record.
    fn set_access(&mut self, key: &Vec<u8>, access: Access)
        requires
            old(self).wf(),
        ensures
            final(self).wf(),
            final(self).base_map() == old(self).base_map(),
            final(self).accesses() == old(self).accesses().insert(key@, access@),
    {
        match self.find_record(key) {
            Option::Some(i) => {
                proof {
                    lemma_access_map_update(self.recs(), i as int, access@);
                }
                let ghost ga = access@;
                self.records[i] = AccessRow { key: clone_bytes(key), access };
                proof {
                    assert(self.recs() =~= old(self).recs().update(
                        i as int,
                        AccessRowV { key: key@, access: ga },
                    ));
                }
            }
            Option::None => {
                proof {
                    lemma_access_map_absent(self.recs(), key@);
                    lemma_access_map_push(
                        self.recs(),
                        AccessRowV { key: key@, access: access@ },
                    );
                }
                let ghost ga = access@;
                self.records.push(AccessRow { key: clone_bytes(key), access });
                proof {
                    assert(self.recs() =~= old(self).recs().push(
                        AccessRowV { key: key@, access: ga },
                    ));
                }
            }
        }
    }

    /// The footprint after execution: the read-only keys and the read-write
    /// keys, two disjoint vectors covering exactly the touched keys, each
    /// key listed once.
    pub fn footprint(&self) -> (r: (Vec<Vec<u8>>, Vec<Vec<u8>>))
        requires
            self.wf(),
        ensures
            keys_set(r.0@) == ro_of(self.accesses()),
            keys_set(r.1@) == rw_of(self.accesses()),
            distinct_keys(r.0@),
            distinct_keys(r.1@),
    {
        let mut ro: Vec<Vec<u8>> = Vec::new();
        let mut rw: Vec<Vec<u8>> = Vec::new();
        let mut i: usize = 0;
        proof {
            assert(keys_set(ro@) =~= ro_of(access_map(self.recs().take(0))));
            assert(keys_set(rw@) =~= rw_of(access_map(self.recs().take(0))));
        }
        while i < self.records.len()
            invariant
                self.wf(),
                i <= self.recs().len(),
                keys_set(ro@) == ro_of(access_map(self.recs().take(i as int))),
                keys_set(rw@) == rw_of(access_map(self.recs().take(i as int))),
                distinct_keys(ro@),
                distinct_keys(rw@),
            decreases self.recs().len() - i,
        {
            let ghost kk0 = self.recs()[i as int].key;
            let ghost m0 = access_map(self.recs().take(i as int));
            let ghost m1 = access_map(self.recs().take(i as int + 1));
            proof {
                assert(self.recs().take(i as int + 1).drop_last() =~= self.recs().take(i as int));
                assert(self.recs().take(i as int + 1).last() == self.recs()[i as int]);
                lemma_access_map_absent_prefix(self.recs(), i as int);
                assert(m1 == m0.insert(kk0, self.recs()[i as int].access));
            }
            let k = clone_bytes(&self.records[i].key);
            match &self.records[i].access {
                Access::ReadOnly => {
                    let ghost prev = ro@;
                    ro.push(k);
                    proof {
                        assert forall|x: Seq<u8>| keys_set(ro@).contains(x) implies ro_of(
                            m1,
                        ).contains(x) by {
                            let j = choose|j: int| 0 <= j < ro@.len() && ro@[j]@ == x;
                            if j < prev.len() {
                                assert(prev[j]@ == x);
                                assert(keys_set(prev).contains(x));
                            } else {
                                assert(x == kk0);
                            }
                        }
                        assert forall|x: Seq<u8>| ro_of(m1).contains(x) implies keys_set(
                            ro@,
                        ).contains(x) by {
                            if x == kk0 {
                                assert(ro@[prev.len() as int]@ == x);
                            } else {
                                assert(ro_of(m0).contains(x));
                                assert(keys_set(prev).contains(x));
                                let j = choose|j: int| 0 <= j < prev.len() && prev[j]@ == x;
                                assert(ro@[j]@ == x);
                            }
                        }
                        assert(keys_set(ro@) =~= ro_of(m1));
                        assert(rw_of(m1) =~= rw_of(m0));
                        assert forall|j: int| 0 <= j < prev.len() implies ro@[j]@ != kk0 by {
                            assert(prev[j]@ == ro@[j]@);
                            assert(keys_set(prev).contains(prev[j]@));
                        }
                        assert(distinct_keys(ro@));
                    }
                }
                Access::ReadWrite(_) => {
                    let ghost prev = rw@;
                    rw.push(k);
                    proof {
                        assert forall|x: Seq<u8>| keys_set(rw@).contains(x) implies rw_of(
                            m1,
                        ).contains(x) by {
                            let j = choose|j: int| 0 <= j < rw@.len() && rw@[j]@ == x;
                            if j < prev.len() {
                                assert(prev[j]@ == x);
                                assert(keys_set(prev).contains(x));
                            } else {
                                assert(x == kk0);
                            }
                        }
                        assert forall|x: Seq<u8>| rw_of(m1).contains(x) implies keys_set(
                            rw@,
                        ).contains(x) by {
                            if x == kk0 {
                                assert(rw@[prev.len() as int]@ == x);
                            } else {
                                assert(rw_of(m0).contains(x));
                                assert(keys_set(prev).contains(x));
                                let j = choose|j: int| 0 <= j < prev.len() && prev[j]@ == x;
                                assert(rw@[j]@ == x);
                            }
                        }
                        assert(keys_set(rw@) =~= rw_of(m1));
                        assert(ro_of(m1) =~= ro_of(m0));
                        assert forall|j: int| 0 <= j < prev.len() implies rw@[j]@ != kk0 by {
                            assert(prev[j]@ == rw@[j]@);
                            assert(keys_set(prev).contains(prev[j]@));
                        }
                        assert(distinct_keys(rw@));
                    }
                }
            }
            i += 1;
        }
        proof {
            assert(self.recs().take(self.recs().len() as int) =~= self.recs());
        }
        (ro, rw)
    }

    /// The delta map after execution: every read-write record with its final
    /// value or deletion marker. Read-only accesses never appear.
    pub fn delta(&self) -> (r: Delta)
        requires
            self.wf(),
        ensures
            r.as_map() == delta_of(self.accesses()),
    {
        let mut changes: Vec<DeltaRow> = Vec::new();
        let mut i: usize = 0;
        proof {
            assert(changes@.map_values(|c: DeltaRow| c@) =~= Seq::<DeltaRowV>::empty());
            assert(delta_assoc(changes@.map_values(|c: DeltaRow| c@)) =~= delta_of(
                access_map(self.recs().take(0)),
            ));
        }
        while i < self.records.len()
            invariant
                self.wf(),
                i <= self.recs().len(),
                delta_assoc(changes@.map_values(|c: DeltaRow| c@)) == delta_of(
                    access_map(self.recs().take(i as int)),
                ),
            decreases self.recs().len() - i,
        {
            proof {
                assert(self.recs().take(i as int + 1).drop_last() =~= self.recs().take(i as int));
                assert(self.recs().take(i as int + 1).last() == self.recs()[i as int]);
                lemma_access_map_absent_prefix(self.recs(), i as int);
            }
            match &self.records[i].access {
                Access::ReadOnly => {
                    proof {
                        assert(delta_assoc(changes@.map_values(|c: DeltaRow| c@)) =~= delta_of(
                            access_map(self.recs().take(i as int + 1)),
                        ));
                    }
                }
                Access::ReadWrite(v) => {
                    let val = match v {
                        Option::Some(e) => Option::Some(e.dup()),
                        Option::None => Option::None,
                    };
                    let ghost before = changes@.map_values(|c: DeltaRow| c@);
                    changes.push(DeltaRow { key: clone_bytes(&self.records[i].key), val });
                    proof {
                        let after = changes@.map_values(|c: DeltaRow| c@);
                        assert(after =~= before.push(
                            DeltaRowV {
                                key: self.recs()[i as int].key,
                                val: self.recs()[i as int].access->ReadWrite_0,
                            },
                        ));
                        assert(after.drop_last() =~= before);
                        assert(delta_assoc(after) =~= delta_of(
                            access_map(self.recs().take(i as int + 1)),
                        ));
                    }
                }
            }
            i += 1;
        }
        proof {
            assert(self.recs().take(self.recs().len() as int) =~= self.recs());
        }
        Delta { changes }
    }

    /// Hands the base snapshot back once execution is over.
    pub fn into_base(self) -> (r: Snapshot)
        requires
            self.wf(),
        ensures
            r.wf(),
            r@ == self.base_map(),
    {
        self.base
    }
}

/// No key occurs twice in a key vector.
pub open spec fn distinct_keys(s: Seq<Vec<u8>>) -> bool {
    forall|i: int, j: int| 0 <= i < j < s.len() ==> s[i]@ != s[j]@
}

/// The set of key views held by a vector of keys.
pub open spec fn keys_set(s: Seq<Vec<u8>>) -> Set<Seq<u8>> {
    Set::new(|k: Seq<u8>| exists|i: int| 0 <= i < s.len() && s[i]@ == k)
}

/// In a unique record list, the key of record `i` is absent from the map of
/// the first `i` records.
proof fn lemma_access_map_absent_prefix(s: Seq<AccessRowV>, i: int)
    requires
        unique_access_keys(s),
        0 <= i < s.len(),
    ensures
        !access_map(s.take(i)).contains_key(s[i].key),
{
    assert(forall|j: int| 0 <= j < s.take(i).len() ==> s.take(i)[j].key != s[i].key);
    lemma_access_map_absent(s.take(i), s[i].key);
}

} // verus!
