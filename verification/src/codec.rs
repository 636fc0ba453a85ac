//! Transaction codec: reduces a transaction envelope to a single canonical
//! invocation, rejecting any envelope not shaped as exactly one
//! invoke-contract-call operation with a 32-byte target and a method name.

use vstd::prelude::*;

use crate::tx::{
    clone_bytes, ops_of, HostFn, Operation, TxEnvelope, TxEnvelopeV, Val, ValV, vals_view,
};

verus! {

/// The single error the codec ever raises: the envelope is not shaped as one
/// invoke-call operation with valid target and method parameters.
#[derive(Debug)]
pub enum CodecError {
    MalformedTransaction,
}

/// The normalized (target, method, arguments) triple extracted from an
/// envelope, independent of the wire-format variant.
pub struct Invocation {
    /// The 32-byte target contract identifier.
    pub contract_id: Vec<u8>,
    /// The method name, as its bytes.
    pub method: Vec<u8>,
    /// The ordered argument list: the parameters from index 2 onward.
    pub args: Vec<Val>,
}

/// Mathematical view of an `Invocation`.
pub struct InvocationV {
    pub contract_id: Seq<u8>,
    pub method: Seq<u8>,
    pub args: Seq<ValV>,
}

impl View for Invocation {
    type V = InvocationV;

    open spec fn view(&self) -> InvocationV {
        InvocationV {
            contract_id: self.contract_id@,
            method: self.method@,
            args: vals_view(self.args@),
        }
    }
}

/// Parameter 0 must be a byte string of exactly 32 bytes after decoding.
pub open spec fn valid_contract_param(v: ValV) -> bool {
    v matches ValV::Bytes(b) && b.len() == 32
}

/// Parameter 1 may be either a raw byte string or a symbol: producers
/// disagree on the encoding, so both representations are accepted.
pub open spec fn valid_method_param(v: ValV) -> bool {
    v is Bytes || v is Sym
}

/// The method-name bytes of a valid method parameter.
pub open spec fn method_bytes(v: ValV) -> Seq<u8>
    recommends
        valid_method_param(v),
{
    match v {
        ValV::Bytes(b) => b,
        ValV::Sym(b) => b,
        _ => Seq::empty(),
    }
}

/// Exactly when an envelope decodes: one operation, which invokes the
/// generic call selector with at least two parameters, a 32-byte target and
/// a bytes-or-symbol method name.
pub open spec fn decode_ok(e: TxEnvelopeV) -> bool {
    let ops = ops_of(e);
    &&& ops.len() == 1
    &&& ops[0] is Invoke
    &&& ops[0]->func == HostFn::Call
    &&& ops[0]->params.len() >= 2
    &&& valid_contract_param(ops[0]->params[0])
    &&& valid_method_param(ops[0]->params[1])
}

/// The canonical invocation of an envelope that decodes.
pub open spec fn invocation_of(e: TxEnvelopeV) -> InvocationV
    recommends
        decode_ok(e),
{
    let params = ops_of(e)[0]->params;
    InvocationV {
        contract_id: params[0]->Bytes_0,
        method: method_bytes(params[1]),
        args: params.skip(2),
    }
}

/// Decodes an envelope into its canonical invocation, or rejects it.
///
/// Succeeds exactly on the envelopes `decode_ok` describes; no partial
/// invocation is ever returned.
pub fn decode_envelope(e: &TxEnvelope) -> (r: Result<Invocation, CodecError>)
    ensures
        r is Ok <==> decode_ok(e@),
        r matches Ok(inv) ==> inv@ == invocation_of(e@),
{
    let ops: &Vec<Operation> = match e {
        TxEnvelope::V0(t) => &t.operations,
        TxEnvelope::V1(t) => &t.operations,
        TxEnvelope::FeeBump(f) => &f.inner.operations,
    };
    proof {
        assert(ops_of(e@) == ops@.map_values(|o: Operation| o@));
    }
    if ops.len() != 1 {
        return Err(CodecError::MalformedTransaction);
    }
    let op = &ops[0];
    match op {
        Operation::Invoke { func, params } => {
            match func {
                HostFn::Call => {}
                _ => {
                    return Err(CodecError::MalformedTransaction);
                }
            }
            if params.len() < 2 {
                return Err(CodecError::MalformedTransaction);
            }
            let contract_id: Vec<u8> = match &params[0] {
                Val::Bytes(b) => {
                    if b.len() != 32 {
                        return Err(CodecError::MalformedTransaction);
                    }
                    clone_bytes(b)
                }
                _ => {
                    return Err(CodecError::MalformedTransaction);
                }
            };
            // The raw-bytes representation is tried first, then the symbol
            // form; producers disagree on which one carries the method name.
            let method: Vec<u8> = match &params[1] {
                Val::Bytes(b) => clone_bytes(b),
                Val::Sym(s) => clone_bytes(s),
                _ => {
                    return Err(CodecError::MalformedTransaction);
                }
            };
            let mut args: Vec<Val> = Vec::new();
            let mut i: usize = 2;
            while i < params.len()
                invariant
                    2 <= i <= params@.len(),
                    args@.len() == i - 2,
                    forall|j: int| 0 <= j < args@.len() ==> args@[j]@ == params@[j + 2]@,
                decreases params@.len() - i,
            {
                args.push(params[i].dup());
                i += 1;
            }
            proof {
                assert(vals_view(args@) =~= vals_view(params@).skip(2));
            }
            Ok(Invocation { contract_id, method, args })
        }
        Operation::Opaque { .. } => Err(CodecError::MalformedTransaction),
    }
}

/// Method-name dual encoding: two envelopes identical except that the method
/// parameter is carried once as raw bytes and once as a symbol are accepted
/// alike and decode to the same canonical invocation.
pub proof fn lemma_method_dual_encoding(e1: TxEnvelopeV, e2: TxEnvelopeV, m: Seq<u8>)
    requires
        ops_of(e1).len() == 1,
        ops_of(e2).len() == 1,
        ops_of(e1)[0] is Invoke,
        ops_of(e2)[0] is Invoke,
        ops_of(e1)[0]->func == ops_of(e2)[0]->func,
        ops_of(e1)[0]->params.len() == ops_of(e2)[0]->params.len(),
        ops_of(e1)[0]->params.len() >= 2,
        ops_of(e1)[0]->params[1] == ValV::Bytes(m),
        ops_of(e2)[0]->params[1] == ValV::Sym(m),
        forall|i: int|
            0 <= i < ops_of(e1)[0]->params.len() && i != 1 ==> ops_of(e1)[0]->params[i]
                == ops_of(e2)[0]->params[i],
    ensures
        decode_ok(e1) <==> decode_ok(e2),
        decode_ok(e1) ==> invocation_of(e1) == invocation_of(e2),
{
    let p1 = ops_of(e1)[0]->params;
    let p2 = ops_of(e2)[0]->params;
    assert(p1[0] == p2[0]);
    if decode_ok(e1) {
        assert(p1.skip(2) =~= p2.skip(2));
    }
}

} // verus!
