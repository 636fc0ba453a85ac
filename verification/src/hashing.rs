//! Transaction hasher: a deterministic serialization of the signature
//! payload (network identifier plus tagged transaction body) and its SHA-256
//! digest, the system's idempotency and status key.

use vstd::prelude::*;

use sha2::{Digest, Sha256};

use crate::bytes::{
    i32_be, i64_be, push_i32_be, push_i64_be, push_u32_be, push_u64_be, ser_bytes, u32_be, u64_be,
    write_bytes, write_raw,
};
use crate::tx::{
    canonical_of_v0, Account, AccountV, Cond, HostFn, Memo, MemoV, Operation, OperationV, Tx,
    TxEnvelope, TxEnvelopeV, TxV, TxV0, Val, ValV, ops_view, vals_view,
};

verus! {

/// The SHA-256 digest of a byte sequence: a function of the bytes alone.
pub uninterp spec fn sha256_of(b: Seq<u8>) -> Seq<u8>;

/// Relies on sha2's `Sha256`: the digest is 32 bytes and depends on the
/// input bytes alone.
#[verifier::external_body]
pub(crate) fn hash_bytes(b: &[u8]) -> (r: Vec<u8>)
    ensures
        r@ == sha256_of(b@),
        r@.len() == 32,
{
    let mut hasher = Sha256::new();
    hasher.update(b);
    hasher.finalize().to_vec()
}

/// The 32-byte network identifier derived from a human-readable passphrase:
/// the SHA-256 digest of its UTF-8 bytes.
pub fn network_id(passphrase: &[u8]) -> (r: Vec<u8>)
    ensures
        r@ == sha256_of(passphrase@),
        r@.len() == 32,
{
    hash_bytes(passphrase)
}

/// One serialized host value: a variant tag, then the payload.
pub open spec fn ser_val(v: ValV) -> Seq<u8> {
    match v {
        ValV::Bytes(b) => seq![0u8] + ser_bytes(b),
        ValV::Sym(b) => seq![1u8] + ser_bytes(b),
        ValV::U32(x) => seq![2u8] + u32_be(x),
        ValV::I32(x) => seq![3u8] + i32_be(x),
    }
}

/// The concatenation of the serializations of a sequence of values.
pub open spec fn ser_vals(s: Seq<ValV>) -> Seq<u8>
    decreases s.len(),
{
    if s.len() == 0 {
        Seq::empty()
    } else {
        ser_val(s[0]) + ser_vals(s.skip(1))
    }
}

/// The tag byte of a host-function selector.
pub open spec fn hostfn_tag(f: HostFn) -> u8 {
    match f {
        HostFn::Call => 0,
        HostFn::CreateContract => 1,
    }
}

/// One serialized operation.
pub open spec fn ser_op(o: OperationV) -> Seq<u8> {
    match o {
        OperationV::Invoke { func, params } => seq![0u8, hostfn_tag(func)] + u64_be(
            params.len() as u64,
        ) + ser_vals(params),
        OperationV::Opaque { body } => seq![1u8] + ser_bytes(body),
    }
}

/// The concatenation of the serializations of a sequence of operations.
pub open spec fn ser_ops(s: Seq<OperationV>) -> Seq<u8>
    decreases s.len(),
{
    if s.len() == 0 {
        Seq::empty()
    } else {
        ser_op(s[0]) + ser_ops(s.skip(1))
    }
}

/// One serialized account.
pub open spec fn ser_account(a: AccountV) -> Seq<u8> {
    match a {
        AccountV::Ed25519(k) => seq![0u8] + ser_bytes(k),
        AccountV::Muxed { id, key } => seq![1u8] + u64_be(id) + ser_bytes(key),
    }
}

/// One serialized precondition.
pub open spec fn ser_cond(c: Cond) -> Seq<u8> {
    match c {
        Cond::Unbounded => seq![0u8],
        Cond::Time(tb) => seq![1u8] + u64_be(tb.min_time) + u64_be(tb.max_time),
    }
}

/// One serialized memo.
pub open spec fn ser_memo(m: MemoV) -> Seq<u8> {
    match m {
        MemoV::Absent => seq![0u8],
        MemoV::Text(t) => seq![1u8] + ser_bytes(t),
        MemoV::Id(i) => seq![2u8] + u64_be(i),
    }
}

/// One serialized canonical transaction: source account, fee, sequence
/// number, precondition, memo, then the operations.
pub open spec fn ser_tx(t: TxV) -> Seq<u8> {
    ser_account(t.source) + u32_be(t.fee) + i64_be(t.seq_num) + ser_cond(t.cond) + ser_memo(t.memo)
        + u64_be(t.operations.len() as u64) + ser_ops(t.operations)
}

/// The tagged transaction body embedded in the signature payload: for the
/// legacy and signed variants the inner transaction in its canonical shape,
/// for a fee bump the fee-bump body itself.
pub open spec fn tagged_tx_bytes(e: TxEnvelopeV) -> Seq<u8> {
    match e {
        TxEnvelopeV::V0(t) => seq![0u8] + ser_tx(canonical_of_v0(t)),
        TxEnvelopeV::V1(t) => seq![0u8] + ser_tx(t),
        TxEnvelopeV::FeeBump(f) => seq![1u8] + ser_account(f.fee_source) + i64_be(f.fee) + ser_tx(
            f.inner,
        ),
    }
}

/// The signature payload: the network identifier followed by the tagged
/// transaction body.
pub open spec fn payload_bytes(e: TxEnvelopeV, network_id: Seq<u8>) -> Seq<u8> {
    network_id + tagged_tx_bytes(e)
}

/// The transaction hash: the SHA-256 digest of the signature payload built
/// over the network identifier derived from the passphrase.
pub open spec fn tx_hash(e: TxEnvelopeV, passphrase: Seq<u8>) -> Seq<u8> {
    sha256_of(payload_bytes(e, sha256_of(passphrase)))
}

/// Appends the serialization of one value to `out`.
fn write_val(out: &mut Vec<u8>, v: &Val)
    ensures
        final(out)@ == old(out)@ + ser_val(v@),
{
    match v {
        Val::Bytes(b) => {
            out.push(0);
            write_bytes(out, b);
        }
        Val::Sym(b) => {
            out.push(1);
            write_bytes(out, b);
        }
        Val::U32(x) => {
            out.push(2);
            push_u32_be(out, *x);
        }
        Val::I32(x) => {
            out.push(3);
            push_i32_be(out, *x);
        }
    }
    proof {
        assert(out@ =~= old(out)@ + ser_val(v@));
    }
}

/// `ser_vals` over one more element: the serialization grows by exactly the
/// serialization of that element.
proof fn lemma_ser_vals_take_succ(s: Seq<ValV>, i: int)
    requires
        0 <= i < s.len(),
    ensures
        ser_vals(s.take(i + 1)) == ser_vals(s.take(i)) + ser_val(s[i]),
    decreases i,
{
    if i == 0 {
        assert(s.take(0) =~= Seq::<ValV>::empty());
        assert(s.take(1).skip(1) =~= Seq::<ValV>::empty());
        assert(s.take(1)[0] == s[0]);
        assert(ser_vals(Seq::<ValV>::empty()) == Seq::<u8>::empty());
        assert(ser_vals(s.take(1)) =~= ser_vals(s.take(0)) + ser_val(s[0]));
    } else {
        lemma_ser_vals_take_succ(s.skip(1), i - 1);
        assert(s.take(i + 1).skip(1) =~= s.skip(1).take(i));
        assert(s.take(i).skip(1) =~= s.skip(1).take(i - 1));
        assert(s.skip(1)[i - 1] == s[i]);
        assert(ser_vals(s.take(i + 1)) =~= ser_vals(s.take(i)) + ser_val(s[i]));
    }
}

/// Appends the serializations of all values in `params` to `out`.
fn write_vals(out: &mut Vec<u8>, params: &Vec<Val>)
    ensures
        final(out)@ == old(out)@ + ser_vals(vals_view(params@)),
{
    let mut i: usize = 0;
    proof {
        assert(vals_view(params@).take(0) =~= Seq::<ValV>::empty());
        assert(out@ =~= old(out)@ + ser_vals(vals_view(params@).take(0)));
    }
    while i < params.len()
        invariant
            i <= params@.len(),
            out@ == old(out)@ + ser_vals(vals_view(params@).take(i as int)),
        decreases params@.len() - i,
    {
        write_val(out, &params[i]);
        proof {
            lemma_ser_vals_take_succ(vals_view(params@), i as int);
            assert(vals_view(params@)[i as int] == params@[i as int]@);
            assert(out@ =~= old(out)@ + ser_vals(vals_view(params@).take(i as int + 1)));
        }
        i += 1;
    }
    proof {
        assert(vals_view(params@).take(params@.len() as int) =~= vals_view(params@));
    }
}

/// Appends the serialization of one operation to `out`.
fn write_op(out: &mut Vec<u8>, o: &Operation)
    ensures
        final(out)@ == old(out)@ + ser_op(o@),
{
    match o {
        Operation::Invoke { func, params } => {
            out.push(0);
            match func {
                HostFn::Call => out.push(0),
                HostFn::CreateContract => out.push(1),
            }
            push_u64_be(out, params.len() as u64);
            write_vals(out, params);
        }
        Operation::Opaque { body } => {
            out.push(1);
            write_bytes(out, body);
        }
    }
    proof {
        assert(out@ =~= old(out)@ + ser_op(o@));
    }
}

/// `ser_ops` over one more element.
proof fn lemma_ser_ops_take_succ(s: Seq<OperationV>, i: int)
    requires
        0 <= i < s.len(),
    ensures
        ser_ops(s.take(i + 1)) == ser_ops(s.take(i)) + ser_op(s[i]),
    decreases i,
{
    if i == 0 {
        assert(s.take(0) =~= Seq::<OperationV>::empty());
        assert(s.take(1).skip(1) =~= Seq::<OperationV>::empty());
        assert(s.take(1)[0] == s[0]);
        assert(ser_ops(Seq::<OperationV>::empty()) == Seq::<u8>::empty());
        assert(ser_ops(s.take(1)) =~= ser_ops(s.take(0)) + ser_op(s[0]));
    } else {
        lemma_ser_ops_take_succ(s.skip(1), i - 1);
        assert(s.take(i + 1).skip(1) =~= s.skip(1).take(i));
        assert(s.take(i).skip(1) =~= s.skip(1).take(i - 1));
        assert(s.skip(1)[i - 1] == s[i]);
        assert(ser_ops(s.take(i + 1)) =~= ser_ops(s.take(i)) + ser_op(s[i]));
    }
}

/// Appends the serializations of all operations in `ops` to `out`, preceded
/// by their count.
fn write_ops(out: &mut Vec<u8>, ops: &Vec<Operation>)
    ensures
        final(out)@ == old(out)@ + u64_be(ops@.len() as u64) + ser_ops(ops_view(ops@)),
{
    push_u64_be(out, ops.len() as u64);
    let ghost base: Seq<u8> = out@;
    let mut i: usize = 0;
    proof {
        assert(ops_view(ops@).take(0) =~= Seq::<OperationV>::empty());
        assert(out@ =~= base + ser_ops(ops_view(ops@).take(0)));
    }
    while i < ops.len()
        invariant
            i <= ops@.len(),
            out@ == base + ser_ops(ops_view(ops@).take(i as int)),
        decreases ops@.len() - i,
    {
        write_op(out, &ops[i]);
        proof {
            lemma_ser_ops_take_succ(ops_view(ops@), i as int);
            assert(ops_view(ops@)[i as int] == ops@[i as int]@);
            assert(out@ =~= base + ser_ops(ops_view(ops@).take(i as int + 1)));
        }
        i += 1;
    }
    proof {
        assert(ops_view(ops@).take(ops@.len() as int) =~= ops_view(ops@));
        assert(out@ =~= old(out)@ + u64_be(ops@.len() as u64) + ser_ops(ops_view(ops@)));
    }
}

/// Appends the serialization of an account to `out`.
fn write_account(out: &mut Vec<u8>, a: &Account)
    ensures
        final(out)@ == old(out)@ + ser_account(a@),
{
    match a {
        Account::Ed25519(k) => {
            out.push(0);
            write_bytes(out, k);
        }
        Account::Muxed { id, key } => {
            out.push(1);
            push_u64_be(out, *id);
            write_bytes(out, key);
        }
    }
    proof {
        assert(out@ =~= old(out)@ + ser_account(a@));
    }
}

/// Appends the serialization of a precondition to `out`.
fn write_cond(out: &mut Vec<u8>, c: &Cond)
    ensures
        final(out)@ == old(out)@ + ser_cond(*c),
{
    match c {
        Cond::Unbounded => out.push(0),
        Cond::Time(tb) => {
            out.push(1);
            push_u64_be(out, tb.min_time);
            push_u64_be(out, tb.max_time);
        }
    }
    proof {
        assert(out@ =~= old(out)@ + ser_cond(*c));
    }
}

/// Appends the serialization of a memo to `out`.
fn write_memo(out: &mut Vec<u8>, m: &Memo)
    ensures
        final(out)@ == old(out)@ + ser_memo(m@),
{
    match m {
        Memo::Absent => out.push(0),
        Memo::Text(t) => {
            out.push(1);
            write_bytes(out, t);
        }
        Memo::Id(i) => {
            out.push(2);
            push_u64_be(out, *i);
        }
    }
    proof {
        assert(out@ =~= old(out)@ + ser_memo(m@));
    }
}

/// Appends the serialization of a canonical transaction to `out`.
fn write_tx(out: &mut Vec<u8>, t: &Tx)
    ensures
        final(out)@ == old(out)@ + ser_tx(t@),
{
    write_account(out, &t.source);
    push_u32_be(out, t.fee);
    push_i64_be(out, t.seq_num);
    write_cond(out, &t.cond);
    write_memo(out, &t.memo);
    write_ops(out, &t.operations);
    proof {
        assert(out@ =~= old(out)@ + ser_tx(t@));
    }
}

/// Appends the canonical-shape serialization of a legacy transaction to
/// `out`: its bare ed25519 source re-wrapped as a general source account and
/// its optional time bounds as a precondition.
fn write_canonical_v0(out: &mut Vec<u8>, t: &TxV0)
    ensures
        final(out)@ == old(out)@ + ser_tx(canonical_of_v0(t@)),
{
    out.push(0);
    write_bytes(out, &t.source_ed25519);
    push_u32_be(out, t.fee);
    push_i64_be(out, t.seq_num);
    match &t.time_bounds {
        Option::None => out.push(0),
        Option::Some(tb) => {
            out.push(1);
            push_u64_be(out, tb.min_time);
            push_u64_be(out, tb.max_time);
        }
    }
    write_memo(out, &t.memo);
    write_ops(out, &t.operations);
    proof {
        assert(out@ =~= old(out)@ + ser_tx(canonical_of_v0(t@)));
    }
}

/// Computes the transaction hash of an envelope under a network passphrase:
/// the SHA-256 digest of the signature payload, reproducible byte-for-byte
/// from the same envelope and passphrase.
pub fn hash_transaction_in_envelope(envelope: &TxEnvelope, passphrase: &[u8]) -> (r: Vec<u8>)
    ensures
        r@ == tx_hash(envelope@, passphrase@),
        r@.len() == 32,
{
    let net = hash_bytes(passphrase);
    let mut payload: Vec<u8> = Vec::new();
    write_raw(&mut payload, &net);
    match envelope {
        TxEnvelope::V0(t) => {
            payload.push(0);
            write_canonical_v0(&mut payload, t);
        }
        TxEnvelope::V1(t) => {
            payload.push(0);
            write_tx(&mut payload, t);
        }
        TxEnvelope::FeeBump(f) => {
            payload.push(1);
            write_account(&mut payload, &f.fee_source);
            push_i64_be(&mut payload, f.fee);
            write_tx(&mut payload, &f.inner);
        }
    }
    proof {
        assert(payload@ =~= payload_bytes(envelope@, sha256_of(passphrase@)));
    }
    hash_bytes(payload.as_slice())
}

/// Hash determinism: the transaction hash is a function of the envelope and
/// passphrase alone, so two digests of identical inputs are identical.
pub proof fn lemma_hash_deterministic(e: TxEnvelopeV, p: Seq<u8>, r1: Seq<u8>, r2: Seq<u8>)
    requires
        r1 == tx_hash(e, p),
        r2 == tx_hash(e, p),
    ensures
        r1 == r2,
{
}

} // verus!
