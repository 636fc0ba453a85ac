//! Snapshot store: the ledger key-to-entry map as persisted on disk, its
//! read-modify-write merge on commit, and the deterministic byte encoding of
//! the snapshot file.
//!
//! Committing merges a delta into a base snapshot: delta entries override
//! base entries for matching keys, deletion markers drop their key, and keys
//! absent from the delta are untouched — a merge, never a replace.

use vstd::prelude::*;

use crate::bytes::{push_u32_be, push_u64_be, ser_bytes, u32_be, u64_be, write_bytes};
use crate::bytes_eq;
use crate::tx::clone_bytes;

verus! {

/// Versioned state bound to a ledger key: payload bytes plus the sequence
/// number of the ledger that last modified it.
pub struct LedgerEntry {
    pub data: Vec<u8>,
    pub last_modified: u32,
}

/// Mathematical view of a `LedgerEntry`.
pub struct LedgerEntryV {
    pub data: Seq<u8>,
    pub last_modified: u32,
}

impl View for LedgerEntry {
    type V = LedgerEntryV;

    open spec fn view(&self) -> LedgerEntryV {
        LedgerEntryV { data: self.data@, last_modified: self.last_modified }
    }
}

impl LedgerEntry {
    /// Clones an entry, preserving its view.
    pub fn dup(&self) -> (r: LedgerEntry)
        ensures
            r@ == self@,
    {
        LedgerEntry { data: clone_bytes(&self.data), last_modified: self.last_modified }
    }
}

/// One keyed row of a snapshot: a ledger key in its canonical serialized
/// bytes, and the entry bound to it.
pub struct Row {
    pub key: Vec<u8>,
    pub entry: LedgerEntry,
}

/// Mathematical view of a `Row`.
pub struct RowV {
    pub key: Seq<u8>,
    pub entry: LedgerEntryV,
}

impl View for Row {
    type V = RowV;

    open spec fn view(&self) -> RowV {
        RowV { key: self.key@, entry: self.entry@ }
    }
}

/// The views of a sequence of rows.
pub open spec fn rows_view(s: Seq<Row>) -> Seq<RowV> {
    s.map_values(|r: Row| r@)
}

/// No two rows bind the same key.
pub open spec fn unique_keys(s: Seq<RowV>) -> bool {
    forall|i: int, j: int| 0 <= i < j < s.len() ==> s[i].key != s[j].key
}

/// The map bound by an association list; later rows override earlier ones.
pub open spec fn assoc_map(s: Seq<RowV>) -> Map<Seq<u8>, LedgerEntryV>
    decreases s.len(),
{
    if s.len() == 0 {
        Map::empty()
    } else {
        assoc_map(s.drop_last()).insert(s.last().key, s.last().entry)
    }
}

/// A row's key is bound to its entry when keys are unique.
proof fn lemma_assoc_map_index(s: Seq<RowV>, i: int)
    requires
        unique_keys(s),
        0 <= i < s.len(),
    ensures
        assoc_map(s).contains_key(s[i].key),
        assoc_map(s)[s[i].key] == s[i].entry,
    decreases s.len(),
{
    if i == s.len() - 1 {
    } else {
        assert(unique_keys(s.drop_last()));
        assert(s.drop_last()[i] == s[i]);
        lemma_assoc_map_index(s.drop_last(), i);
        assert(s[i].key != s.last().key);
    }
}

/// A key bound by no row is absent from the map.
proof fn lemma_assoc_map_absent(s: Seq<RowV>, k: Seq<u8>)
    requires
        forall|i: int| 0 <= i < s.len() ==> s[i].key != k,
    ensures
        !assoc_map(s).contains_key(k),
    decreases s.len(),
{
    if s.len() > 0 {
        assert(forall|i: int| 0 <= i < s.drop_last().len() ==> s.drop_last()[i].key != k);
        lemma_assoc_map_absent(s.drop_last(), k);
    }
}

/// Appending a fresh row inserts its binding.
proof fn lemma_assoc_map_push(s: Seq<RowV>, r: RowV)
    ensures
        assoc_map(s.push(r)) == assoc_map(s).insert(r.key, r.entry),
{
    assert(s.push(r).drop_last() =~= s);
    assert(s.push(r).last() == r);
}

/// Replacing the entry of row `i` updates that key's binding.
proof fn lemma_assoc_map_update(s: Seq<RowV>, i: int, e: LedgerEntryV)
    requires
        unique_keys(s),
        0 <= i < s.len(),
    ensures
        assoc_map(s.update(i, RowV { key: s[i].key, entry: e })) == assoc_map(s).insert(
            s[i].key,
            e,
        ),
    decreases s.len(),
{
    let r2 = RowV { key: s[i].key, entry: e };
    if i == s.len() - 1 {
        assert(s.update(i, r2).drop_last() =~= s.drop_last());
        assert(s.update(i, r2).last() == r2);
        assert(assoc_map(s.drop_last()).insert(s[i].key, e) =~= assoc_map(s).insert(s[i].key, e));
    } else {
        assert(unique_keys(s.drop_last()));
        assert(s.drop_last()[i] == s[i]);
        lemma_assoc_map_update(s.drop_last(), i, e);
        assert(s.update(i, r2).drop_last() =~= s.drop_last().update(i, r2));
        assert(s.update(i, r2).last() == s.last());
        assert(s[i].key != s.last().key);
        assert(assoc_map(s.drop_last()).insert(s[i].key, e).insert(s.last().key, s.last().entry)
            =~= assoc_map(s).insert(s[i].key, e));
    }
}

/// Removing row `i` removes that key's binding when keys are unique.
proof fn lemma_assoc_map_remove(s: Seq<RowV>, i: int)
    requires
        unique_keys(s),
        0 <= i < s.len(),
    ensures
        assoc_map(s.remove(i)) == assoc_map(s).remove(s[i].key),
        unique_keys(s.remove(i)),
    decreases s.len(),
{
    assert(unique_keys(s.remove(i)));
    if i == s.len() - 1 {
        assert(s.remove(i) =~= s.drop_last());
        assert(forall|j: int| 0 <= j < s.drop_last().len() ==> s.drop_last()[j].key != s[i].key);
        lemma_assoc_map_absent(s.drop_last(), s[i].key);
        assert(assoc_map(s.drop_last()) =~= assoc_map(s).remove(s[i].key));
    } else {
        assert(unique_keys(s.drop_last()));
        assert(s.drop_last()[i] == s[i]);
        lemma_assoc_map_remove(s.drop_last(), i);
        assert(s.remove(i).drop_last() =~= s.drop_last().remove(i));
        assert(s.remove(i).last() == s.last());
        assert(s[i].key != s.last().key);
        assert(assoc_map(s.drop_last()).remove(s[i].key).insert(s.last().key, s.last().entry)
            =~= assoc_map(s).remove(s[i].key));
    }
}

/// The full ledger state visible to one execution: a mapping from ledger key
/// to ledger entry, held as a keyed row list with unique keys.
pub struct Snapshot {
    rows: Vec<Row>,
}

impl View for Snapshot {
    type V = Map<Seq<u8>, LedgerEntryV>;

    closed spec fn view(&self) -> Map<Seq<u8>, LedgerEntryV> {
        assoc_map(rows_view(self.rows@))
    }
}

/// One recorded change of a delta map: the key's new entry, or a deletion
/// marker.
pub struct DeltaRow {
    pub key: Vec<u8>,
    pub val: Option<LedgerEntry>,
}

/// Mathematical view of a `DeltaRow`.
pub struct DeltaRowV {
    pub key: Seq<u8>,
    pub val: Option<LedgerEntryV>,
}

impl View for DeltaRow {
    type V = DeltaRowV;

    open spec fn view(&self) -> DeltaRowV {
        DeltaRowV {
            key: self.key@,
            val: match &self.val {
                Option::None => Option::None,
                Option::Some(e) => Option::Some(e@),
            },
        }
    }
}

/// The post-execution delta map: the read-write subset of the access
/// records, each with its final value or deletion marker.
pub struct Delta {
    pub changes: Vec<DeltaRow>,
}

impl Delta {
    /// The views of the recorded changes, in order.
    pub open spec fn rows(&self) -> Seq<DeltaRowV> {
        self.changes@.map_values(|r: DeltaRow| r@)
    }

    /// The change bound to each key; later changes override earlier ones.
    pub open spec fn as_map(&self) -> Map<Seq<u8>, Option<LedgerEntryV>> {
        delta_assoc(self.rows())
    }

    /// An empty delta: committing it changes nothing.
    pub fn empty() -> (r: Delta)
        ensures
            r.rows() == Seq::<DeltaRowV>::empty(),
    {
        let r = Delta { changes: Vec::new() };
        proof {
            assert(r.rows() =~= Seq::<DeltaRowV>::empty());
        }
        r
    }
}

/// The map bound by a delta change list.
pub open spec fn delta_assoc(s: Seq<DeltaRowV>) -> Map<Seq<u8>, Option<LedgerEntryV>>
    decreases s.len(),
{
    if s.len() == 0 {
        Map::empty()
    } else {
        delta_assoc(s.drop_last()).insert(s.last().key, s.last().val)
    }
}

/// One change applied to a snapshot map: an override or a removal.
pub open spec fn apply_change(s: Map<Seq<u8>, LedgerEntryV>, c: DeltaRowV) -> Map<
    Seq<u8>,
    LedgerEntryV,
> {
    match c.val {
        Option::Some(e) => s.insert(c.key, e),
        Option::None => s.remove(c.key),
    }
}

/// A change list applied in order to a snapshot map.
pub open spec fn apply_changes(s: Map<Seq<u8>, LedgerEntryV>, cs: Seq<DeltaRowV>) -> Map<
    Seq<u8>,
    LedgerEntryV,
> decreases cs.len(),
{
    if cs.len() == 0 {
        s
    } else {
        apply_change(apply_changes(s, cs.drop_last()), cs.last())
    }
}

/// The merge of a delta map into a base map: delta overrides win, deletion
/// markers drop their key, and keys absent from the delta are untouched.
pub open spec fn merge_spec(
    s: Map<Seq<u8>, LedgerEntryV>,
    d: Map<Seq<u8>, Option<LedgerEntryV>>,
) -> Map<Seq<u8>, LedgerEntryV> {
    Map::new(
        (|k: Seq<u8>| if d.contains_key(k) {
            d[k] is Some
        } else {
            s.contains_key(k)
        }),
        (|k: Seq<u8>| if d.contains_key(k) && d[k] is Some {
            d[k].unwrap()
        } else {
            s[k]
        }),
    )
}

/// Applying a change list in order binds each key to its last change:
/// the fold over the list equals the merge of the list's map.
pub proof fn lemma_apply_changes_is_merge(s: Map<Seq<u8>, LedgerEntryV>, cs: Seq<DeltaRowV>)
    ensures
        apply_changes(s, cs) == merge_spec(s, delta_assoc(cs)),
    decreases cs.len(),
{
    if cs.len() == 0 {
        assert(apply_changes(s, cs) =~= merge_spec(s, delta_assoc(cs)));
    } else {
        lemma_apply_changes_is_merge(s, cs.drop_last());
        assert(apply_change(merge_spec(s, delta_assoc(cs.drop_last())), cs.last()) =~= merge_spec(
            s,
            delta_assoc(cs),
        ));
    }
}

/// One serialized snapshot row: key, payload, then the sequence number.
pub open spec fn ser_row(r: RowV) -> Seq<u8> {
    ser_bytes(r.key) + ser_bytes(r.entry.data) + u32_be(r.entry.last_modified)
}

/// The concatenation of the serializations of a sequence of rows.
pub open spec fn ser_rows(s: Seq<RowV>) -> Seq<u8>
    decreases s.len(),
{
    if s.len() == 0 {
        Seq::empty()
    } else {
        ser_row(s[0]) + ser_rows(s.skip(1))
    }
}

/// The persisted form of a snapshot: the row count, then each row.
pub open spec fn encode_spec(s: Seq<RowV>) -> Seq<u8> {
    u64_be(s.len() as u64) + ser_rows(s)
}

/// `ser_rows` over one more element.
proof fn lemma_ser_rows_take_succ(s: Seq<RowV>, i: int)
    requires
        0 <= i < s.len(),
    ensures
        ser_rows(s.take(i + 1)) == ser_rows(s.take(i)) + ser_row(s[i]),
    decreases i,
{
    if i == 0 {
        assert(s.take(0) =~= Seq::<RowV>::empty());
        assert(s.take(1).skip(1) =~= Seq::<RowV>::empty());
        assert(s.take(1)[0] == s[0]);
        assert(ser_rows(Seq::<RowV>::empty()) == Seq::<u8>::empty());
        assert(ser_rows(s.take(1)) =~= ser_rows(s.take(0)) + ser_row(s[0]));
    } else {
        lemma_ser_rows_take_succ(s.skip(1), i - 1);
        assert(s.take(i + 1).skip(1) =~= s.skip(1).take(i));
        assert(s.take(i).skip(1) =~= s.skip(1).take(i - 1));
        assert(s.skip(1)[i - 1] == s[i]);
        assert(ser_rows(s.take(i + 1)) =~= ser_rows(s.take(i)) + ser_row(s[i]));
    }
}

impl Snapshot {
    /// The views of the rows, in persisted order.
    pub closed spec fn rows(&self) -> Seq<RowV> {
        rows_view(self.rows@)
    }

    /// Well-formed: no key is bound twice.
    pub open spec fn wf(&self) -> bool {
        unique_keys(self.rows())
    }

    /// The empty snapshot: the first-run bootstrap state.
    pub fn new() -> (r: Snapshot)
        ensures
            r.wf(),
            r@ == Map::<Seq<u8>, LedgerEntryV>::empty(),
            r.rows() == Seq::<RowV>::empty(),
    {
        let r = Snapshot { rows: Vec::new() };
        proof {
            assert(r.rows() =~= Seq::<RowV>::empty());
        }
        r
    }

    /// The number of keys held.
    pub fn len(&self) -> (r: usize)
        ensures
            r == self.rows().len(),
    {
        self.rows.len()
    }

    /// The index of the row binding `key`, if any.
    fn find(&self, key: &Vec<u8>) -> (r: Option<usize>)
        ensures
            match r {
                Option::Some(i) => i < self.rows().len() && self.rows()[i as int].key == key@,
                Option::None => forall|i: int|
                    0 <= i < self.rows().len() ==> self.rows()[i].key != key@,
            },
    {
        let mut i: usize = 0;
        while i < self.rows.len()
            invariant
                i <= self.rows().len(),
                forall|j: int| 0 <= j < i ==> self.rows()[j].key != key@,
            decreases self.rows().len() - i,
        {
            if bytes_eq(&self.rows[i].key, key) {
                return Option::Some(i);
            }
            i += 1;
        }
        Option::None
    }

    /// Looks a key up, returning its entry or signalling that it is absent.
    pub fn lookup(&self, key: &Vec<u8>) -> (r: Option<&LedgerEntry>)
        requires
            self.wf(),
        ensures
            match r {
                Option::Some(e) => self@.contains_key(key@) && e@ == self@[key@],
                Option::None => !self@.contains_key(key@),
            },
    {
        match self.find(key) {
            Option::Some(i) => {
                proof {
                    lemma_assoc_map_index(self.rows(), i as int);
                }
                Option::Some(&self.rows[i].entry)
            }
            Option::None => {
                proof {
                    lemma_assoc_map_absent(self.rows(), key@);
                }
                Option::None
            }
        }
    }

    /// Binds `key` to `entry`, replacing any previous binding in place.
    pub fn insert(&mut self, key: Vec<u8>, entry: LedgerEntry)
        requires
            old(self).wf(),
        ensures
            final(self).wf(),
            final(self)@ == old(self)@.insert(key@, entry@),
    {
        match self.find(&key) {
            Option::Some(i) => {
                proof {
                    lemma_assoc_map_update(self.rows(), i as int, entry@);
                }
                self.rows[i] = Row { key, entry };
                proof {
                    assert(self.rows() =~= old(self).rows().update(
                        i as int,
                        RowV { key: key@, entry: entry@ },
                    ));
                }
            }
            Option::None => {
                proof {
                    lemma_assoc_map_push(self.rows(), RowV { key: key@, entry: entry@ });
                }
                self.rows.push(Row { key, entry });
                proof {
                    assert(self.rows() =~= old(self).rows().push(
                        RowV { key: key@, entry: entry@ },
                    ));
                }
            }
        }
    }

    /// Drops any binding of `key`.
    pub fn remove(&mut self, key: &Vec<u8>)
        requires
            old(self).wf(),
        ensures
            final(self).wf(),
            final(self)@ == old(self)@.remove(key@),
    {
        match self.find(key) {
            Option::Some(i) => {
                proof {
                    lemma_assoc_map_remove(self.rows(), i as int);
                }
                self.rows.remove(i);
                proof {
                    assert(self.rows() =~= old(self).rows().remove(i as int));
                }
            }
            Option::None => {
                proof {
                    lemma_assoc_map_absent(self.rows(), key@);
                    assert(old(self)@ =~= old(self)@.remove(key@));
                }
            }
        }
    }

    /// An exact copy: the same rows in the same order.
    pub fn duplicate(&self) -> (r: Snapshot)
        ensures
            r.rows() == self.rows(),
            r@ == self@,
    {
        let mut rows: Vec<Row> = Vec::new();
        let mut i: usize = 0;
        while i < self.rows.len()
            invariant
                i <= self.rows().len(),
                rows_view(rows@) == self.rows().take(i as int),
            decreases self.rows().len() - i,
        {
            proof {
                assert(rows_view(rows@).len() == rows@.len());
                assert(rows@.len() == i as int);
            }
            rows.push(
                Row {
                    key: clone_bytes(&self.rows[i].key),
                    entry: self.rows[i].entry.dup(),
                },
            );
            proof {
                assert(rows@.len() == i + 1);
                assert(rows@[i as int]@.key == self.rows@[i as int].key@);
                assert(rows@[i as int]@.entry == self.rows@[i as int].entry@);
                assert(rows_view(rows@)[i as int] == rows@[i as int]@);
                assert(self.rows()[i as int] == self.rows@[i as int]@);
                assert(forall|j: int|
                    0 <= j < i ==> rows_view(rows@)[j] == rows_view(rows@.take(i as int))[j]);
                assert(rows_view(rows@) =~= self.rows().take(i as int + 1));
            }
            i += 1;
        }
        let r = Snapshot { rows };
        proof {
            assert(self.rows().take(self.rows().len() as int) =~= self.rows());
        }
        r
    }

    /// Merges a delta into this snapshot: the result binds every key of a
    /// delta override to the override's value, drops every key the delta
    /// marks deleted, and keeps every other binding unchanged. An empty
    /// delta reproduces the rows exactly, byte for byte on encoding.
    pub fn merge(&self, delta: &Delta) -> (r: Snapshot)
        requires
            self.wf(),
        ensures
            r.wf(),
            r@ == merge_spec(self@, delta.as_map()),
            delta.rows().len() == 0 ==> r.rows() == self.rows(),
    {
        let mut out = self.duplicate();
        let mut j: usize = 0;
        proof {
            assert(delta.rows().take(0) =~= Seq::<DeltaRowV>::empty());
        }
        while j < delta.changes.len()
            invariant
                self.wf(),
                j <= delta.rows().len(),
                out.wf(),
                out@ == apply_changes(self@, delta.rows().take(j as int)),
                j == 0 ==> out.rows() == self.rows(),
            decreases delta.rows().len() - j,
        {
            let c = &delta.changes[j];
            match &c.val {
                Option::Some(e) => out.insert(clone_bytes(&c.key), e.dup()),
                Option::None => out.remove(&c.key),
            }
            proof {
                assert(delta.rows().take(j as int + 1).drop_last() =~= delta.rows().take(j as int));
                assert(delta.rows().take(j as int + 1).last() == delta.rows()[j as int]);
            }
            j += 1;
        }
        proof {
            assert(delta.rows().take(delta.rows().len() as int) =~= delta.rows());
            lemma_apply_changes_is_merge(self@, delta.rows());
        }
        out
    }

    /// The deterministic persisted bytes of this snapshot.
    pub fn encode(&self) -> (r: Vec<u8>)
        ensures
            r@ == encode_spec(self.rows()),
    {
        let mut out: Vec<u8> = Vec::new();
        push_u64_be(&mut out, self.rows.len() as u64);
        let ghost base: Seq<u8> = out@;
        let mut i: usize = 0;
        proof {
            assert(self.rows().take(0) =~= Seq::<RowV>::empty());
            assert(out@ =~= base + ser_rows(self.rows().take(0)));
        }
        while i < self.rows.len()
            invariant
                i <= self.rows().len(),
                out@ == base + ser_rows(self.rows().take(i as int)),
            decreases self.rows().len() - i,
        {
            write_bytes(&mut out, &self.rows[i].key);
            write_bytes(&mut out, &self.rows[i].entry.data);
            push_u32_be(&mut out, self.rows[i].entry.last_modified);
            proof {
                lemma_ser_rows_take_succ(self.rows(), i as int);
                assert(out@ =~= base + ser_rows(self.rows().take(i as int + 1)));
            }
            i += 1;
        }
        proof {
            assert(self.rows().take(self.rows().len() as int) =~= self.rows());
            assert(out@ =~= encode_spec(self.rows()));
        }
        out
    }
}

/// The reading of a snapshot file can fail in two ways.
#[derive(Debug)]
pub enum Error {
    /// The file exists but does not parse back to a snapshot.
    CorruptSnapshot,
    /// The file cannot be read or replaced.
    PersistError,
}

/// The 64-bit unsigned integer eight big-endian bytes denote.
pub open spec fn u64_of_be(b: Seq<u8>) -> u64
    recommends
        b.len() == 8,
{
    ((b[0] as u64) << 56) | ((b[1] as u64) << 48) | ((b[2] as u64) << 40) | ((b[3] as u64) << 32)
        | ((b[4] as u64) << 24) | ((b[5] as u64) << 16) | ((b[6] as u64) << 8) | (b[7] as u64)
}

/// The 32-bit unsigned integer four big-endian bytes denote.
pub open spec fn u32_of_be(b: Seq<u8>) -> u32
    recommends
        b.len() == 4,
{
    ((b[0] as u32) << 24) | ((b[1] as u32) << 16) | ((b[2] as u32) << 8) | (b[3] as u32)
}

/// Reading back the eight big-endian bytes of `x` yields `x`.
proof fn lemma_u64_be_inverse(x: u64)
    ensures
        u64_of_be(u64_be(x)) == x,
{
    let b0 = (x >> 56) as u8;
    let b1 = (x >> 48) as u8;
    let b2 = (x >> 40) as u8;
    let b3 = (x >> 32) as u8;
    let b4 = (x >> 24) as u8;
    let b5 = (x >> 16) as u8;
    let b6 = (x >> 8) as u8;
    let b7 = x as u8;
    assert(((b0 as u64) << 56) | ((b1 as u64) << 48) | ((b2 as u64) << 40) | ((b3 as u64) << 32)
        | ((b4 as u64) << 24) | ((b5 as u64) << 16) | ((b6 as u64) << 8) | (b7 as u64) == x)
        by (bit_vector)
        requires
            b0 == (x >> 56) as u8,
            b1 == (x >> 48) as u8,
            b2 == (x >> 40) as u8,
            b3 == (x >> 32) as u8,
            b4 == (x >> 24) as u8,
            b5 == (x >> 16) as u8,
            b6 == (x >> 8) as u8,
            b7 == x as u8,
    ;
}

/// Reading back the four big-endian bytes of `x` yields `x`.
proof fn lemma_u32_be_inverse(x: u32)
    ensures
        u32_of_be(u32_be(x)) == x,
{
    let b0 = (x >> 24) as u8;
    let b1 = (x >> 16) as u8;
    let b2 = (x >> 8) as u8;
    let b3 = x as u8;
    assert(((b0 as u32) << 24) | ((b1 as u32) << 16) | ((b2 as u32) << 8) | (b3 as u32) == x)
        by (bit_vector)
        requires
            b0 == (x >> 24) as u8,
            b1 == (x >> 16) as u8,
            b2 == (x >> 8) as u8,
            b3 == x as u8,
    ;
}

/// One length-prefixed byte string parsed at `pos`: the bytes and the
/// position after them.
pub open spec fn parse_bytes(b: Seq<u8>, pos: int) -> Option<(Seq<u8>, int)>
    recommends
        0 <= pos,
{
    if pos + 8 <= b.len() {
        let n = u64_of_be(b.subrange(pos, pos + 8)) as int;
        if pos + 8 + n <= b.len() {
            Option::Some((b.subrange(pos + 8, pos + 8 + n), pos + 8 + n))
        } else {
            Option::None
        }
    } else {
        Option::None
    }
}

/// One snapshot row parsed at `pos`.
pub open spec fn parse_row(b: Seq<u8>, pos: int) -> Option<(RowV, int)>
    recommends
        0 <= pos,
{
    match parse_bytes(b, pos) {
        Option::None => Option::None,
        Option::Some((key, p1)) => match parse_bytes(b, p1) {
            Option::None => Option::None,
            Option::Some((data, p2)) => if p2 + 4 <= b.len() {
                Option::Some(
                    (
                        RowV {
                            key,
                            entry: LedgerEntryV {
                                data,
                                last_modified: u32_of_be(b.subrange(p2, p2 + 4)),
                            },
                        },
                        p2 + 4,
                    ),
                )
            } else {
                Option::None
            },
        },
    }
}

/// `n` snapshot rows parsed in order from `pos`.
pub open spec fn parse_rows(b: Seq<u8>, pos: int, n: nat) -> Option<(Seq<RowV>, int)>
    recommends
        0 <= pos,
    decreases n,
{
    if n == 0 {
        Option::Some((Seq::empty(), pos))
    } else {
        match parse_row(b, pos) {
            Option::None => Option::None,
            Option::Some((r, p)) => match parse_rows(b, p, (n - 1) as nat) {
                Option::None => Option::None,
                Option::Some((rs, p2)) => Option::Some((seq![r] + rs, p2)),
            },
        }
    }
}

/// The rows a snapshot file denotes: the whole file must parse, with
/// nothing left over and no key bound twice.
pub open spec fn decode_spec(b: Seq<u8>) -> Option<Seq<RowV>> {
    if b.len() >= 8 {
        let n = u64_of_be(b.subrange(0, 8)) as nat;
        match parse_rows(b, 8, n) {
            Option::None => Option::None,
            Option::Some((rs, p)) => if p == b.len() && unique_keys(rs) {
                Option::Some(rs)
            } else {
                Option::None
            },
        }
    } else {
        Option::None
    }
}

/// Merges `delta` into `base` and returns the merged snapshot together with
/// the exact bytes to persist atomically in place of the old file.
///
/// Commit idempotence: with an empty delta the merged rows equal the base
/// rows, so the bytes written are byte-identical to the base's encoding — a
/// second commit of `{}` on top of a committed snapshot reproduces the file.
pub fn commit(base: &Snapshot, delta: &Delta) -> (r: (Snapshot, Vec<u8>))
    requires
        base.wf(),
    ensures
        r.0.wf(),
        r.0@ == merge_spec(base@, delta.as_map()),
        r.1@ == encode_spec(r.0.rows()),
        delta.rows().len() == 0 ==> r.0.rows() == base.rows() && r.1@ == encode_spec(base.rows()),
{
    let merged = base.merge(delta);
    let bytes = merged.encode();
    (merged, bytes)
}

/// Reads the 64-bit big-endian integer at `pos`.
fn read_u64_at(b: &Vec<u8>, pos: usize) -> (r: u64)
    requires
        pos + 8 <= b@.len(),
    ensures
        r == u64_of_be(b@.subrange(pos as int, pos as int + 8)),
{
    let _bound = b.len();
    let r = ((b[pos] as u64) << 56) | ((b[pos + 1] as u64) << 48) | ((b[pos + 2] as u64) << 40)
        | ((b[pos + 3] as u64) << 32) | ((b[pos + 4] as u64) << 24) | ((b[pos + 5] as u64) << 16)
        | ((b[pos + 6] as u64) << 8) | (b[pos + 7] as u64);
    proof {
        let s = b@.subrange(pos as int, pos as int + 8);
        assert(s[0] == b@[pos as int]);
        assert(s[1] == b@[pos as int + 1]);
        assert(s[2] == b@[pos as int + 2]);
        assert(s[3] == b@[pos as int + 3]);
        assert(s[4] == b@[pos as int + 4]);
        assert(s[5] == b@[pos as int + 5]);
        assert(s[6] == b@[pos as int + 6]);
        assert(s[7] == b@[pos as int + 7]);
    }
    r
}

/// Reads the 32-bit big-endian integer at `pos`.
fn read_u32_at(b: &Vec<u8>, pos: usize) -> (r: u32)
    requires
        pos + 4 <= b@.len(),
    ensures
        r == u32_of_be(b@.subrange(pos as int, pos as int + 4)),
{
    let _bound = b.len();
    let r = ((b[pos] as u32) << 24) | ((b[pos + 1] as u32) << 16) | ((b[pos + 2] as u32) << 8)
        | (b[pos + 3] as u32);
    proof {
        let s = b@.subrange(pos as int, pos as int + 4);
        assert(s[0] == b@[pos as int]);
        assert(s[1] == b@[pos as int + 1]);
        assert(s[2] == b@[pos as int + 2]);
        assert(s[3] == b@[pos as int + 3]);
    }
    r
}

/// Copies `n` bytes starting at `pos`.
fn read_chunk(b: &Vec<u8>, pos: usize, n: usize) -> (r: Vec<u8>)
    requires
        pos + n <= b@.len(),
    ensures
        r@ == b@.subrange(pos as int, pos as int + n),
{
    let _bound = b.len();
    let mut out: Vec<u8> = Vec::new();
    let mut i: usize = 0;
    while i < n
        invariant
            i <= n,
            pos + n <= b@.len(),
            b@.len() <= usize::MAX,
            out@ == b@.subrange(pos as int, pos as int + i),
        decreases n - i,
    {
        out.push(b[pos + i]);
        proof {
            assert(out@ =~= b@.subrange(pos as int, pos as int + i + 1));
        }
        i += 1;
    }
    out
}

/// Parses one length-prefixed byte string at `pos`.
fn parse_bytes_at(b: &Vec<u8>, pos: usize) -> (r: Option<(Vec<u8>, usize)>)
    requires
        pos <= b@.len(),
    ensures
        match r {
            Option::Some(x) => parse_bytes(b@, pos as int) == Option::Some((x.0@, x.1 as int))
                && pos <= x.1 <= b@.len(),
            Option::None => parse_bytes(b@, pos as int) is None,
        },
{
    if b.len() - pos < 8 {
        return Option::None;
    }
    let n64 = read_u64_at(b, pos);
    let rem = b.len() - pos - 8;
    if n64 > rem as u64 {
        return Option::None;
    }
    let n = n64 as usize;
    let chunk = read_chunk(b, pos + 8, n);
    Option::Some((chunk, pos + 8 + n))
}

/// No row's key or payload outruns the length prefix that stores it.
pub open spec fn bounded_rows(s: Seq<RowV>) -> bool {
    forall|i: int|
        0 <= i < s.len() ==> (#[trigger] s[i]).key.len() <= u64::MAX && s[i].entry.data.len()
            <= u64::MAX
}

/// True exactly when no key is bound twice.
fn check_unique(rows: &Vec<Row>) -> (r: bool)
    ensures
        r <==> unique_keys(rows_view(rows@)),
{
    let mut i: usize = 0;
    while i < rows.len()
        invariant
            i <= rows@.len(),
            forall|p: int, q: int|
                0 <= p < q < i ==> rows_view(rows@)[p].key != rows_view(rows@)[q].key,
        decreases rows@.len() - i,
    {
        let mut j: usize = 0;
        while j < i
            invariant
                j <= i < rows@.len(),
                forall|p: int, q: int|
                    0 <= p < q < i ==> rows_view(rows@)[p].key != rows_view(rows@)[q].key,
                forall|q: int| 0 <= q < j ==> rows_view(rows@)[q].key != rows_view(rows@)[i as int].key,
            decreases i - j,
        {
            if bytes_eq(&rows[j].key, &rows[i].key) {
                proof {
                    assert(rows_view(rows@)[j as int].key == rows_view(rows@)[i as int].key);
                }
                return false;
            }
            j += 1;
        }
        i += 1;
    }
    true
}

/// Joins already-parsed rows with the rest of a parse.
spec fn rows_join(prefix: Seq<RowV>, rest: Option<(Seq<RowV>, int)>) -> Option<(Seq<RowV>, int)> {
    match rest {
        Option::None => Option::None,
        Option::Some((rs, p)) => Option::Some((prefix + rs, p)),
    }
}

/// Parses persisted snapshot bytes back into a snapshot: the exact inverse
/// of `encode` on every well-formed snapshot, and a `CorruptSnapshot`
/// rejection of every byte string that no snapshot encodes to.
pub fn decode(bytes: &Vec<u8>) -> (r: Result<Snapshot, Error>)
    ensures
        r is Ok <==> decode_spec(bytes@) is Some,
        r matches Ok(s) ==> s.wf() && decode_spec(bytes@) == Option::Some(s.rows()),
        r matches Err(e) ==> e is CorruptSnapshot,
{
    if bytes.len() < 8 {
        return Err(Error::CorruptSnapshot);
    }
    let n: u64 = read_u64_at(bytes, 0);
    let mut rows: Vec<Row> = Vec::new();
    let mut pos: usize = 8;
    let mut k: u64 = 0;
    proof {
        assert(rows_view(rows@) =~= Seq::<RowV>::empty());
        if parse_rows(bytes@, 8, n as nat) is Some {
            let x = parse_rows(bytes@, 8, n as nat).unwrap();
            assert(Seq::<RowV>::empty() + x.0 =~= x.0);
        }
    }
    while k < n
        invariant
            8 <= pos <= bytes@.len(),
            k <= n,
            bytes@.len() >= 8,
            n == u64_of_be(bytes@.subrange(0, 8)),
            rows_join(rows_view(rows@), parse_rows(bytes@, pos as int, (n - k) as nat))
                == parse_rows(bytes@, 8, n as nat),
        decreases n - k,
    {
        let ghost prefix = rows_view(rows@);
        let (key, p1) = match parse_bytes_at(bytes, pos) {
            Option::Some(x) => x,
            Option::None => {
                proof {
                    assert(parse_row(bytes@, pos as int) is None);
                    assert(parse_rows(bytes@, pos as int, (n - k) as nat) is None);
                    assert(decode_spec(bytes@) is None);
                }
                return Err(Error::CorruptSnapshot);
            }
        };
        let (data, p2) = match parse_bytes_at(bytes, p1) {
            Option::Some(x) => x,
            Option::None => {
                proof {
                    assert(parse_row(bytes@, pos as int) is None);
                    assert(parse_rows(bytes@, pos as int, (n - k) as nat) is None);
                    assert(decode_spec(bytes@) is None);
                }
                return Err(Error::CorruptSnapshot);
            }
        };
        if bytes.len() - p2 < 4 {
            proof {
                assert(parse_row(bytes@, pos as int) is None);
                assert(parse_rows(bytes@, pos as int, (n - k) as nat) is None);
                assert(decode_spec(bytes@) is None);
            }
            return Err(Error::CorruptSnapshot);
        }
        let last_modified = read_u32_at(bytes, p2);
        let row = Row { key, entry: LedgerEntry { data, last_modified } };
        let p3 = p2 + 4;
        proof {
            assert(parse_row(bytes@, pos as int) == Option::Some((row@, p3 as int)));
            if parse_rows(bytes@, p3 as int, (n - k - 1) as nat) is Some {
                let rest = parse_rows(bytes@, p3 as int, (n - k - 1) as nat).unwrap();
                assert(parse_rows(bytes@, pos as int, (n - k) as nat) == Option::Some(
                    (seq![row@] + rest.0, rest.1),
                ));
                assert((prefix + (seq![row@] + rest.0)) =~= ((prefix + seq![row@]) + rest.0));
            } else {
                assert(parse_rows(bytes@, pos as int, (n - k) as nat) is None);
            }
        }
        rows.push(row);
        proof {
            assert(rows_view(rows@) =~= prefix + seq![row@]);
        }
        pos = p3;
        k = k + 1;
    }
    proof {
        assert(parse_rows(bytes@, pos as int, 0) == Option::Some((Seq::<RowV>::empty(), pos as int)));
        assert(rows_view(rows@) + Seq::<RowV>::empty() =~= rows_view(rows@));
        assert(parse_rows(bytes@, 8, n as nat) == Option::Some((rows_view(rows@), pos as int)));
    }
    if pos != bytes.len() {
        proof {
            assert(decode_spec(bytes@) is None);
        }
        return Err(Error::CorruptSnapshot);
    }
    if !check_unique(&rows) {
        proof {
            assert(decode_spec(bytes@) is None);
        }
        return Err(Error::CorruptSnapshot);
    }
    let s = Snapshot { rows };
    proof {
        assert(decode_spec(bytes@) == Option::Some(s.rows()));
    }
    Ok(s)
}

/// Reads the persisted snapshot from what the file system handed back:
/// an absent file is the first-run bootstrap and yields the empty snapshot;
/// present bytes must parse back to a snapshot, or the file is corrupt.
pub fn read(file: Option<Vec<u8>>) -> (r: Result<Snapshot, Error>)
    ensures
        file is None ==> (r matches Ok(s) && s.wf() && s@ == Map::<Seq<u8>, LedgerEntryV>::empty()
            && s.rows() == Seq::<RowV>::empty()),
        file matches Some(bytes) ==> {
            &&& r is Ok <==> decode_spec(bytes@) is Some
            &&& r matches Ok(s) ==> s.wf() && decode_spec(bytes@) == Option::Some(s.rows())
            &&& r matches Err(e) ==> e is CorruptSnapshot
        },
{
    match file {
        Option::None => Ok(Snapshot::new()),
        Option::Some(bytes) => decode(&bytes),
    }
}

/// A parse at the position where a serialized byte string starts reads
/// exactly that byte string.
proof fn lemma_parse_bytes_of_ser(b: Seq<u8>, pos: int, k: Seq<u8>)
    requires
        0 <= pos,
        k.len() <= u64::MAX,
        pos + 8 + k.len() <= b.len(),
        b.subrange(pos, pos + 8 + k.len()) == ser_bytes(k),
    ensures
        parse_bytes(b, pos) == Option::Some((k, pos + 8 + k.len())),
{
    let w = b.subrange(pos, pos + 8 + k.len());
    assert(b.subrange(pos, pos + 8) =~= w.subrange(0, 8));
    assert(w.subrange(0, 8) =~= u64_be(k.len() as u64));
    lemma_u64_be_inverse(k.len() as u64);
    assert(u64_of_be(b.subrange(pos, pos + 8)) == k.len() as u64);
    assert(b.subrange(pos + 8, pos + 8 + k.len()) =~= w.subrange(8, 8 + k.len() as int));
    assert(w.subrange(8, 8 + k.len() as int) =~= k);
}

/// A parse at the position where a serialized row starts reads exactly
/// that row.
proof fn lemma_parse_row_of_ser(b: Seq<u8>, pos: int, r: RowV)
    requires
        0 <= pos,
        r.key.len() <= u64::MAX,
        r.entry.data.len() <= u64::MAX,
        pos + ser_row(r).len() <= b.len(),
        b.subrange(pos, pos + ser_row(r).len()) == ser_row(r),
    ensures
        parse_row(b, pos) == Option::Some((r, pos + ser_row(r).len())),
{
    let n1 = 8 + r.key.len() as int;
    let n2 = 8 + r.entry.data.len() as int;
    assert(ser_row(r).len() == n1 + n2 + 4);
    assert(b.subrange(pos, pos + n1) =~= ser_bytes(r.key));
    lemma_parse_bytes_of_ser(b, pos, r.key);
    assert(ser_bytes(r.key).len() == n1);
    assert(ser_bytes(r.entry.data).len() == n2);
    assert(b.subrange(pos + n1, pos + n1 + n2) =~= ser_row(r).subrange(n1, n1 + n2));
    assert(ser_row(r).subrange(n1, n1 + n2) =~= ser_bytes(r.entry.data));
    lemma_parse_bytes_of_ser(b, pos + n1, r.entry.data);
    assert(b.subrange(pos + n1 + n2, pos + n1 + n2 + 4) =~= ser_row(r).subrange(
        n1 + n2,
        n1 + n2 + 4,
    ));
    assert(ser_row(r).subrange(n1 + n2, n1 + n2 + 4) =~= u32_be(r.entry.last_modified));
    lemma_u32_be_inverse(r.entry.last_modified);
    assert(u32_of_be(b.subrange(pos + n1 + n2, pos + n1 + n2 + 4)) == r.entry.last_modified);
}

/// A parse at the position where serialized rows fill the rest of the
/// buffer reads exactly those rows.
proof fn lemma_parse_rows_of_ser(b: Seq<u8>, pos: int, s: Seq<RowV>)
    requires
        0 <= pos,
        bounded_rows(s),
        pos + ser_rows(s).len() == b.len(),
        b.subrange(pos, b.len() as int) == ser_rows(s),
    ensures
        parse_rows(b, pos, s.len()) == Option::Some((s, b.len() as int)),
    decreases s.len(),
{
    if s.len() == 0 {
    } else {
        let head = ser_row(s[0]);
        assert(ser_rows(s) == head + ser_rows(s.skip(1)));
        assert(b.subrange(pos, pos + head.len()) =~= head);
        lemma_parse_row_of_ser(b, pos, s[0]);
        assert(bounded_rows(s.skip(1)));
        assert(b.subrange(pos + head.len() as int, b.len() as int) =~= ser_rows(s).subrange(
            head.len() as int,
            ser_rows(s).len() as int,
        ));
        assert(ser_rows(s).subrange(head.len() as int, ser_rows(s).len() as int) =~= ser_rows(
            s.skip(1),
        ));
        lemma_parse_rows_of_ser(b, pos + head.len(), s.skip(1));
        assert(seq![s[0]] + s.skip(1) =~= s);
    }
}

/// Decoding inverts encoding: the bytes a commit writes parse back to
/// exactly the rows that were committed — read after commit sees the
/// merged snapshot, nothing more and nothing less.
pub proof fn lemma_decode_encode(s: Seq<RowV>)
    requires
        unique_keys(s),
        bounded_rows(s),
        s.len() <= u64::MAX,
    ensures
        decode_spec(encode_spec(s)) == Option::Some(s),
{
    let b = encode_spec(s);
    assert(b.len() == 8 + ser_rows(s).len());
    assert(b.subrange(0, 8) =~= u64_be(s.len() as u64));
    lemma_u64_be_inverse(s.len() as u64);
    assert(u64_of_be(b.subrange(0, 8)) == s.len() as u64);
    assert(b.subrange(8, b.len() as int) =~= ser_rows(s));
    lemma_parse_rows_of_ser(b, 8, s);
}

/// Merge correctness, key by key: a committed map binds every key the delta
/// overrides to the override's value, drops every key the delta deletes,
/// and keeps every other key exactly as the base had it.
pub proof fn lemma_merge_correctness(
    s: Map<Seq<u8>, LedgerEntryV>,
    d: Map<Seq<u8>, Option<LedgerEntryV>>,
    k: Seq<u8>,
)
    ensures
        d.contains_key(k) && d[k] is Some ==> merge_spec(s, d).contains_key(k) && merge_spec(s, d)[k]
            == d[k].unwrap(),
        d.contains_key(k) && d[k] is None ==> !merge_spec(s, d).contains_key(k),
        !d.contains_key(k) ==> (merge_spec(s, d).contains_key(k) <==> s.contains_key(k)),
        !d.contains_key(k) && s.contains_key(k) ==> merge_spec(s, d)[k] == s[k],
{
}

} // verus!
