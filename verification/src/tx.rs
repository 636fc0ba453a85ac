//! Model of a transaction envelope: the three wire-format variants
//! (unsigned-legacy, signed, fee-bump-wrapped), the operations they carry,
//! and the host values used as invocation parameters.
//!
//! Each executable type has a mathematical view (`...V`) over `Seq`, which is
//! what the contracts of the codec and the hasher speak about.

use vstd::prelude::*;

verus! {

/// A host value as it appears among an invoke operation's parameters.
#[derive(Debug)]
pub enum Val {
    /// An opaque byte string.
    Bytes(Vec<u8>),
    /// A symbol: short identifier text, carried as its bytes.
    Sym(Vec<u8>),
    /// A 32-bit unsigned integer.
    U32(u32),
    /// A 32-bit signed integer.
    I32(i32),
}

/// Mathematical view of a `Val`.
pub enum ValV {
    Bytes(Seq<u8>),
    Sym(Seq<u8>),
    U32(u32),
    I32(i32),
}

impl View for Val {
    type V = ValV;

    open spec fn view(&self) -> ValV {
        match self {
            Val::Bytes(b) => ValV::Bytes(b@),
            Val::Sym(b) => ValV::Sym(b@),
            Val::U32(x) => ValV::U32(*x),
            Val::I32(x) => ValV::I32(*x),
        }
    }
}

/// The views of a sequence of values.
pub open spec fn vals_view(s: Seq<Val>) -> Seq<ValV> {
    s.map_values(|v: Val| v@)
}

/// The host-function selector carried by an invoke operation.
#[derive(Clone, Copy, Debug, PartialEq, Eq, Structural)]
pub enum HostFn {
    /// The generic "call" discriminator: the only selector the codec accepts.
    Call,
    /// Contract creation; rejected by the codec at this layer.
    CreateContract,
}

/// One operation of a transaction.
pub enum Operation {
    /// An "invoke contract function" operation.
    Invoke { func: HostFn, params: Vec<Val> },
    /// Any other operation kind, carried as its canonical bytes.
    Opaque { body: Vec<u8> },
}

/// Mathematical view of an `Operation`.
pub enum OperationV {
    Invoke { func: HostFn, params: Seq<ValV> },
    Opaque { body: Seq<u8> },
}

impl View for Operation {
    type V = OperationV;

    open spec fn view(&self) -> OperationV {
        match self {
            Operation::Invoke { func, params } => OperationV::Invoke {
                func: *func,
                params: vals_view(params@),
            },
            Operation::Opaque { body } => OperationV::Opaque { body: body@ },
        }
    }
}

/// The views of a sequence of operations.
pub open spec fn ops_view(s: Seq<Operation>) -> Seq<OperationV> {
    s.map_values(|o: Operation| o@)
}

/// A transaction's source account.
pub enum Account {
    /// A plain ed25519 account key.
    Ed25519(Vec<u8>),
    /// A multiplexed account: a subaccount id over an ed25519 key.
    Muxed { id: u64, key: Vec<u8> },
}

/// Mathematical view of an `Account`.
pub enum AccountV {
    Ed25519(Seq<u8>),
    Muxed { id: u64, key: Seq<u8> },
}

impl View for Account {
    type V = AccountV;

    open spec fn view(&self) -> AccountV {
        match self {
            Account::Ed25519(k) => AccountV::Ed25519(k@),
            Account::Muxed { id, key } => AccountV::Muxed { id: *id, key: key@ },
        }
    }
}

/// A validity time window.
#[derive(Clone, Copy, Debug, PartialEq, Eq, Structural)]
pub struct TimeBounds {
    pub min_time: u64,
    pub max_time: u64,
}

/// A transaction's precondition: either unconstrained or a time window.
#[derive(Clone, Copy, Debug, PartialEq, Eq, Structural)]
pub enum Cond {
    Unbounded,
    Time(TimeBounds),
}

/// A transaction memo.
pub enum Memo {
    Absent,
    Text(Vec<u8>),
    Id(u64),
}

/// Mathematical view of a `Memo`.
pub enum MemoV {
    Absent,
    Text(Seq<u8>),
    Id(u64),
}

impl View for Memo {
    type V = MemoV;

    open spec fn view(&self) -> MemoV {
        match self {
            Memo::Absent => MemoV::Absent,
            Memo::Text(t) => MemoV::Text(t@),
            Memo::Id(i) => MemoV::Id(*i),
        }
    }
}

/// The canonical transaction shape: the one embedded in a signature payload.
pub struct Tx {
    pub source: Account,
    pub fee: u32,
    pub seq_num: i64,
    pub cond: Cond,
    pub memo: Memo,
    pub operations: Vec<Operation>,
}

/// Mathematical view of a `Tx`.
pub struct TxV {
    pub source: AccountV,
    pub fee: u32,
    pub seq_num: i64,
    pub cond: Cond,
    pub memo: MemoV,
    pub operations: Seq<OperationV>,
}

impl View for Tx {
    type V = TxV;

    open spec fn view(&self) -> TxV {
        TxV {
            source: self.source@,
            fee: self.fee,
            seq_num: self.seq_num,
            cond: self.cond,
            memo: self.memo@,
            operations: ops_view(self.operations@),
        }
    }
}

/// The unsigned-legacy transaction shape: a bare ed25519 source and an
/// optional time-bounds window in place of the general precondition.
pub struct TxV0 {
    pub source_ed25519: Vec<u8>,
    pub fee: u32,
    pub seq_num: i64,
    pub time_bounds: Option<TimeBounds>,
    pub memo: Memo,
    pub operations: Vec<Operation>,
}

/// Mathematical view of a `TxV0`.
pub struct TxV0V {
    pub source_ed25519: Seq<u8>,
    pub fee: u32,
    pub seq_num: i64,
    pub time_bounds: Option<TimeBounds>,
    pub memo: MemoV,
    pub operations: Seq<OperationV>,
}

impl View for TxV0 {
    type V = TxV0V;

    open spec fn view(&self) -> TxV0V {
        TxV0V {
            source_ed25519: self.source_ed25519@,
            fee: self.fee,
            seq_num: self.seq_num,
            time_bounds: self.time_bounds,
            memo: self.memo@,
            operations: ops_view(self.operations@),
        }
    }
}

/// A fee-bump transaction: a fee source paying for exactly one inner
/// transaction. The inner transaction is held directly, so a fee bump can
/// never wrap another fee bump.
pub struct FeeBumpTx {
    pub fee_source: Account,
    pub fee: i64,
    pub inner: Tx,
}

/// Mathematical view of a `FeeBumpTx`.
pub struct FeeBumpTxV {
    pub fee_source: AccountV,
    pub fee: i64,
    pub inner: TxV,
}

impl View for FeeBumpTx {
    type V = FeeBumpTxV;

    open spec fn view(&self) -> FeeBumpTxV {
        FeeBumpTxV { fee_source: self.fee_source@, fee: self.fee, inner: self.inner@ }
    }
}

/// A transaction envelope: one of the three wire-format variants.
pub enum TxEnvelope {
    /// Unsigned legacy.
    V0(TxV0),
    /// Signed.
    V1(Tx),
    /// Fee-bump-wrapped.
    FeeBump(FeeBumpTx),
}

/// Mathematical view of a `TxEnvelope`.
pub enum TxEnvelopeV {
    V0(TxV0V),
    V1(TxV),
    FeeBump(FeeBumpTxV),
}

impl View for TxEnvelope {
    type V = TxEnvelopeV;

    open spec fn view(&self) -> TxEnvelopeV {
        match self {
            TxEnvelope::V0(t) => TxEnvelopeV::V0(t@),
            TxEnvelope::V1(t) => TxEnvelopeV::V1(t@),
            TxEnvelope::FeeBump(f) => TxEnvelopeV::FeeBump(f@),
        }
    }
}

/// The canonical transaction embedded in the signature payload of a legacy
/// envelope: the legacy fields re-wrapped in the general shape.
pub open spec fn canonical_of_v0(t: TxV0V) -> TxV {
    TxV {
        source: AccountV::Ed25519(t.source_ed25519),
        fee: t.fee,
        seq_num: t.seq_num,
        cond: match t.time_bounds {
            Option::None => Cond::Unbounded,
            Option::Some(tb) => Cond::Time(tb),
        },
        memo: t.memo,
        operations: t.operations,
    }
}

/// The operation list of an envelope, reaching through a fee bump to the
/// inner transaction.
pub open spec fn ops_of(e: TxEnvelopeV) -> Seq<OperationV> {
    match e {
        TxEnvelopeV::V0(t) => t.operations,
        TxEnvelopeV::V1(t) => t.operations,
        TxEnvelopeV::FeeBump(f) => f.inner.operations,
    }
}

/// Clones a byte vector, preserving its contents.
pub fn clone_bytes(b: &Vec<u8>) -> (r: Vec<u8>)
    ensures
        r@ == b@,
{
    let mut out: Vec<u8> = Vec::new();
    let mut i: usize = 0;
    while i < b.len()
        invariant
            i <= b@.len(),
            out@ == b@.take(i as int),
        decreases b@.len() - i,
    {
        out.push(b[i]);
        i += 1;
    }
    proof {
        assert(out@ =~= b@);
    }
    out
}

impl Val {
    /// Clones a value, preserving its view.
    pub fn dup(&self) -> (r: Val)
        ensures
            r@ == self@,
    {
        match self {
            Val::Bytes(b) => Val::Bytes(clone_bytes(b)),
            Val::Sym(b) => Val::Sym(clone_bytes(b)),
            Val::U32(x) => Val::U32(*x),
            Val::I32(x) => Val::I32(*x),
        }
    }
}

} // verus!
