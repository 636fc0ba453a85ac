//! Status tracker: the in-memory mapping from transaction hash (as its hex
//! string) to the last-known transaction status, shared by all concurrent
//! requests of one running process. Entries are created `Pending` when a
//! transaction is accepted, overwritten exactly once with the terminal
//! state, and never deleted.

use vstd::prelude::*;

use crate::tx::{clone_bytes, Val, ValV};

verus! {

/// The cost metrics consumed by one execution.
#[derive(Clone, Copy, Debug, PartialEq, Eq, Structural)]
pub struct Cost {
    pub cpu_insns: u64,
    pub mem_bytes: u64,
}

/// One per-category cost line: a category's name and the amount it
/// consumed.
pub struct CostEntry {
    pub category: String,
    pub amount: u64,
}

/// Mathematical view of a `CostEntry`.
pub struct CostEntryV {
    pub category: Seq<char>,
    pub amount: u64,
}

impl View for CostEntry {
    type V = CostEntryV;

    open spec fn view(&self) -> CostEntryV {
        CostEntryV { category: self.category@, amount: self.amount }
    }
}

/// The views of a sequence of cost lines.
pub open spec fn cost_entries_view(s: Seq<CostEntry>) -> Seq<CostEntryV> {
    s.map_values(|c: CostEntry| c@)
}

/// What one execution produced: the result value, the consumed cost with
/// its per-category breakdown, and the footprint of touched ledger keys
/// split read-only / read-write.
pub struct Receipt {
    pub result: Val,
    pub cost: Cost,
    pub cost_breakdown: Vec<CostEntry>,
    pub footprint_ro: Vec<Vec<u8>>,
    pub footprint_rw: Vec<Vec<u8>>,
}

/// Mathematical view of a `Receipt`.
pub struct ReceiptV {
    pub result: ValV,
    pub cost: Cost,
    pub cost_breakdown: Seq<CostEntryV>,
    pub footprint_ro: Seq<Seq<u8>>,
    pub footprint_rw: Seq<Seq<u8>>,
}

/// The views of a sequence of keys.
pub open spec fn keys_view(s: Seq<Vec<u8>>) -> Seq<Seq<u8>> {
    s.map_values(|k: Vec<u8>| k@)
}

impl View for Receipt {
    type V = ReceiptV;

    open spec fn view(&self) -> ReceiptV {
        ReceiptV {
            result: self.result@,
            cost: self.cost,
            cost_breakdown: cost_entries_view(self.cost_breakdown@),
            footprint_ro: keys_view(self.footprint_ro@),
            footprint_rw: keys_view(self.footprint_rw@),
        }
    }
}

/// Clones a key list, preserving the keys' views.
pub fn clone_keys(ks: &Vec<Vec<u8>>) -> (r: Vec<Vec<u8>>)
    ensures
        keys_view(r@) == keys_view(ks@),
        r@.len() == ks@.len(),
{
    let mut out: Vec<Vec<u8>> = Vec::new();
    let mut i: usize = 0;
    while i < ks.len()
        invariant
            i <= ks@.len(),
            out@.len() == i,
            forall|j: int| 0 <= j < i ==> out@[j]@ == ks@[j]@,
        decreases ks@.len() - i,
    {
        out.push(clone_bytes(&ks[i]));
        i += 1;
    }
    proof {
        assert(keys_view(out@) =~= keys_view(ks@));
    }
    out
}

/// Clones a cost breakdown, preserving its views.
pub fn clone_cost_entries(cs: &Vec<CostEntry>) -> (r: Vec<CostEntry>)
    ensures
        cost_entries_view(r@) == cost_entries_view(cs@),
        r@.len() == cs@.len(),
{
    let mut out: Vec<CostEntry> = Vec::new();
    let mut i: usize = 0;
    while i < cs.len()
        invariant
            i <= cs@.len(),
            out@.len() == i,
            forall|j: int| 0 <= j < i ==> out@[j]@ == cs@[j]@,
        decreases cs@.len() - i,
    {
        out.push(CostEntry { category: cs[i].category.clone(), amount: cs[i].amount });
        i += 1;
    }
    proof {
        assert(cost_entries_view(out@) =~= cost_entries_view(cs@));
    }
    out
}

impl Receipt {
    /// Clones a receipt, preserving its view.
    pub fn dup(&self) -> (r: Receipt)
        ensures
            r@ == self@,
    {
        Receipt {
            result: self.result.dup(),
            cost: self.cost,
            cost_breakdown: clone_cost_entries(&self.cost_breakdown),
            footprint_ro: clone_keys(&self.footprint_ro),
            footprint_rw: clone_keys(&self.footprint_rw),
        }
    }
}

/// A transaction status entry: pending, terminal success with its receipt,
/// or terminal error with a code and message.
pub enum Status {
    Pending,
    Success(Receipt),
    Failed { code: i64, message: String },
}

/// Mathematical view of a `Status`.
pub enum StatusV {
    Pending,
    Success(ReceiptV),
    Failed { code: i64, message: Seq<char> },
}

impl View for Status {
    type V = StatusV;

    open spec fn view(&self) -> StatusV {
        match self {
            Status::Pending => StatusV::Pending,
            Status::Success(r) => StatusV::Success(r@),
            Status::Failed { code, message } => StatusV::Failed {
                code: *code,
                message: message@,
            },
        }
    }
}

impl Status {
    /// Clones a status entry, preserving its view.
    pub fn dup(&self) -> (r: Status)
        ensures
            r@ == self@,
    {
        match self {
            Status::Pending => Status::Pending,
            Status::Success(receipt) => Status::Success(receipt.dup()),
            Status::Failed { code, message } => Status::Failed {
                code: *code,
                message: message.clone(),
            },
        }
    }
}

/// One tracker row: a transaction id (hash hex string) and its status.
pub struct StatusRow {
    pub id: String,
    pub status: Status,
}

/// Mathematical view of a `StatusRow`.
pub struct StatusRowV {
    pub id: Seq<char>,
    pub status: StatusV,
}

impl View for StatusRow {
    type V = StatusRowV;

    open spec fn view(&self) -> StatusRowV {
        StatusRowV { id: self.id@, status: self.status@ }
    }
}

/// The views of a sequence of tracker rows.
pub open spec fn status_rows_view(s: Seq<StatusRow>) -> Seq<StatusRowV> {
    s.map_values(|r: StatusRow| r@)
}

/// At most one entry per transaction id.
pub open spec fn unique_ids(s: Seq<StatusRowV>) -> bool {
    forall|i: int, j: int| 0 <= i < j < s.len() ==> s[i].id != s[j].id
}

/// The status bound to each id by a row list.
pub open spec fn status_map(s: Seq<StatusRowV>) -> Map<Seq<char>, StatusV>
    decreases s.len(),
{
    if s.len() == 0 {
        Map::empty()
    } else {
        status_map(s.drop_last()).insert(s.last().id, s.last().status)
    }
}

/// A row's id is bound to its status when ids are unique.
proof fn lemma_status_map_index(s: Seq<StatusRowV>, i: int)
    requires
        unique_ids(s),
        0 <= i < s.len(),
    ensures
        status_map(s).contains_key(s[i].id),
        status_map(s)[s[i].id] == s[i].status,
    decreases s.len(),
{
    if i == s.len() - 1 {
    } else {
        assert(unique_ids(s.drop_last()));
        assert(s.drop_last()[i] == s[i]);
        lemma_status_map_index(s.drop_last(), i);
        assert(s[i].id != s.last().id);
    }
}

/// An id bound by no row is absent from the map.
proof fn lemma_status_map_absent(s: Seq<StatusRowV>, id: Seq<char>)
    requires
        forall|i: int| 0 <= i < s.len() ==> s[i].id != id,
    ensures
        !status_map(s).contains_key(id),
    decreases s.len(),
{
    if s.len() > 0 {
        assert(forall|i: int| 0 <= i < s.drop_last().len() ==> s.drop_last()[i].id != id);
        lemma_status_map_absent(s.drop_last(), id);
    }
}

/// Appending a fresh row inserts its binding.
proof fn lemma_status_map_push(s: Seq<StatusRowV>, r: StatusRowV)
    ensures
        status_map(s.push(r)) == status_map(s).insert(r.id, r.status),
{
    assert(s.push(r).drop_last() =~= s);
    assert(s.push(r).last() == r);
}

/// Replacing the status of row `i` updates that id's binding.
proof fn lemma_status_map_update(s: Seq<StatusRowV>, i: int, st: StatusV)
    requires
        unique_ids(s),
        0 <= i < s.len(),
    ensures
        status_map(s.update(i, StatusRowV { id: s[i].id, status: st })) == status_map(s).insert(
            s[i].id,
            st,
        ),
    decreases s.len(),
{
    let r2 = StatusRowV { id: s[i].id, status: st };
    if i == s.len() - 1 {
        assert(s.update(i, r2).drop_last() =~= s.drop_last());
        assert(s.update(i, r2).last() == r2);
        assert(status_map(s.drop_last()).insert(s[i].id, st) =~= status_map(s).insert(
            s[i].id,
            st,
        ));
    } else {
        assert(unique_ids(s.drop_last()));
        assert(s.drop_last()[i] == s[i]);
        lemma_status_map_update(s.drop_last(), i, st);
        assert(s.update(i, r2).drop_last() =~= s.drop_last().update(i, r2));
        assert(s.update(i, r2).last() == s.last());
        assert(s[i].id != s.last().id);
        assert(status_map(s.drop_last()).insert(s[i].id, st).insert(
            s.last().id,
            s.last().status,
        ) =~= status_map(s).insert(s[i].id, st));
    }
}

/// The in-memory transaction status map of one running process. The caller
/// wraps it in its process-wide mutual exclusion; every operation here is
/// one critical section's body.
pub struct Tracker {
    rows: Vec<StatusRow>,
}

impl View for Tracker {
    type V = Map<Seq<char>, StatusV>;

    closed spec fn view(&self) -> Map<Seq<char>, StatusV> {
        status_map(status_rows_view(self.rows@))
    }
}

impl Tracker {
    /// The row views, in insertion order.
    pub closed spec fn rows(&self) -> Seq<StatusRowV> {
        status_rows_view(self.rows@)
    }

    /// Well-formed: at most one entry per transaction id.
    pub closed spec fn wf(&self) -> bool {
        unique_ids(self.rows())
    }

    /// The empty tracker of a freshly started process.
    pub fn new() -> (r: Tracker)
        ensures
            r.wf(),
            r@ == Map::<Seq<char>, StatusV>::empty(),
    {
        let r = Tracker { rows: Vec::new() };
        proof {
            assert(r.rows() =~= Seq::<StatusRowV>::empty());
        }
        r
    }

    /// The index of the row for `id`, if any.
    fn find(&self, id: &String) -> (r: Option<usize>)
        ensures
            match r {
                Option::Some(i) => i < self.rows().len() && self.rows()[i as int].id == id@,
                Option::None => forall|i: int|
                    0 <= i < self.rows().len() ==> self.rows()[i].id != id@,
            },
    {
        let mut i: usize = 0;
        while i < self.rows.len()
            invariant
                i <= self.rows().len(),
                forall|j: int| 0 <= j < i ==> self.rows()[j].id != id@,
            decreases self.rows().len() - i,
        {
            if self.rows[i].id.eq(id) {
                return Option::Some(i);
            }
            i += 1;
        }
        Option::None
    }

    /// Binds `id` to `status`, overwriting any earlier binding.
    pub fn set(&mut self, id: String, status: Status)
        requires
            old(self).wf(),
        ensures
            final(self).wf(),
            final(self)@ == old(self)@.insert(id@, status@),
    {
        let ghost gid = id@;
        let ghost st = status@;
        match self.find(&id) {
            Option::Some(i) => {
                proof {
                    lemma_status_map_update(self.rows(), i as int, st);
                }
                self.rows[i] = StatusRow { id, status };
                proof {
                    assert(self.rows() =~= old(self).rows().update(
                        i as int,
                        StatusRowV { id: gid, status: st },
                    ));
                }
            }
            Option::None => {
                proof {
                    lemma_status_map_push(self.rows(), StatusRowV { id: gid, status: st });
                }
                self.rows.push(StatusRow { id, status });
                proof {
                    assert(self.rows() =~= old(self).rows().push(
                        StatusRowV { id: gid, status: st },
                    ));
                }
            }
        }
    }

    /// The current status entry for `id`, or nothing if none was recorded.
    pub fn get(&self, id: &String) -> (r: Option<&Status>)
        requires
            self.wf(),
        ensures
            match r {
                Option::Some(st) => self@.contains_key(id@) && st@ == self@[id@],
                Option::None => !self@.contains_key(id@),
            },
    {
        match self.find(id) {
            Option::Some(i) => {
                proof {
                    lemma_status_map_index(self.rows(), i as int);
                }
                Option::Some(&self.rows[i].status)
            }
            Option::None => {
                proof {
                    lemma_status_map_absent(self.rows(), id@);
                }
                Option::None
            }
        }
    }
}

/// Status lifecycle: a transaction accepted for sending is recorded
/// `Pending` before execution and overwritten with its terminal state after
/// it; from the moment the pending entry is written the id is never absent,
/// so a status query after sending never answers "not found".
pub proof fn lemma_status_lifecycle(
    t0: Map<Seq<char>, StatusV>,
    t1: Map<Seq<char>, StatusV>,
    t2: Map<Seq<char>, StatusV>,
    id: Seq<char>,
    terminal: StatusV,
)
    requires
        t1 == t0.insert(id, StatusV::Pending),
        t2 == t1.insert(id, terminal),
    ensures
        t1.contains_key(id),
        t1[id] == StatusV::Pending,
        t2.contains_key(id),
        t2[id] == terminal,
{
}

} // verus!
