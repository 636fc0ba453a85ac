//! The invoke command: deploy-and-call against the persisted ledger
//! snapshot. The command-line surface stays at the program's edge; here
//! live the parts that decide — contract-id parsing, re-assembly of the
//! argument list in command-line order, and the canonical invocation handed
//! to the execution engine.

use vstd::prelude::*;

use crate::codec::Invocation;
use crate::storage::Storage;
use crate::tx::{clone_bytes, Val};
use crate::utils::{contract_code_key, make_contract_code_key};

verus! {

/// The invoke command's configuration.
pub struct Cmd {
    /// Contract ID to invoke, in hex.
    pub contract_id: String,
    /// WASM file to deploy to the contract ID and invoke, if any.
    pub wasm: Option<String>,
    /// Function name to execute.
    pub function: String,
    /// Plain-text arguments, as given on the command line.
    pub args: Vec<String>,
    /// Base64-encoded binary arguments, as given on the command line.
    pub args_xdr: Vec<String>,
    /// Whether to report the execution cost.
    pub cost: bool,
    /// File that persists ledger state.
    pub ledger_file: String,
}

/// The failures the invoke command distinguishes.
#[derive(Debug)]
pub enum Error {
    /// The contract identifier is not 64 hex digits.
    CannotParseContractID { contract_id: String },
    /// The argument count does not match what the contract's function
    /// expects.
    UnexpectedArgumentCount { provided: usize, expected: usize, function: String },
    /// The contract-code entry cannot be built for the ledger.
    CannotAddContractToLedgerEntries,
    /// The persisted snapshot cannot be read.
    CannotReadLedgerFile,
    /// The WASM file to deploy cannot be read.
    CannotReadContractFile,
    /// The merged snapshot cannot be persisted.
    CannotCommitLedgerFile,
    /// The named function is not in the contract's spec.
    FunctionNotFoundInContractSpec(String),
    /// The execution engine failed.
    Host,
}

/// One command-line argument, in the form it was given.
pub enum Arg {
    /// A plain-text argument, parsed against the function's input type.
    Arg(String),
    /// A base64-encoded binary argument.
    ArgXDR(String),
}

impl Arg {
    /// Clones an argument, preserving its value.
    pub fn dup(&self) -> (r: Arg)
        ensures
            r == *self,
    {
        match self {
            Arg::Arg(s) => Arg::Arg(s.clone()),
            Arg::ArgXDR(s) => Arg::ArgXDR(s.clone()),
        }
    }
}

/// The stable merge of two index-tagged argument lists: the pair with the
/// smaller index goes first, and on ties the first list wins — exactly the
/// order the arguments stood in on the command line.
pub open spec fn merge_sorted(a: Seq<(usize, Arg)>, b: Seq<(usize, Arg)>) -> Seq<(usize, Arg)>
    decreases a.len() + b.len(),
{
    if a.len() == 0 {
        b
    } else if b.len() == 0 {
        a
    } else if a[0].0 <= b[0].0 {
        seq![a[0]] + merge_sorted(a.skip(1), b)
    } else {
        seq![b[0]] + merge_sorted(a, b.skip(1))
    }
}

/// Merges two index-tagged argument lists into command-line order.
fn merge_indexed(a: &Vec<(usize, Arg)>, b: &Vec<(usize, Arg)>) -> (r: Vec<(usize, Arg)>)
    ensures
        r@ == merge_sorted(a@, b@),
{
    let mut out: Vec<(usize, Arg)> = Vec::new();
    let mut i: usize = 0;
    let mut j: usize = 0;
    proof {
        assert(a@.skip(0) =~= a@);
        assert(b@.skip(0) =~= b@);
        assert(out@ + merge_sorted(a@, b@) =~= merge_sorted(a@, b@));
    }
    while i < a.len() || j < b.len()
        invariant
            i <= a@.len(),
            j <= b@.len(),
            merge_sorted(a@, b@) == out@ + merge_sorted(a@.skip(i as int), b@.skip(j as int)),
        decreases a@.len() - i + b@.len() - j,
    {
        let take_a: bool = if i < a.len() && j < b.len() {
            a[i].0 <= b[j].0
        } else {
            i < a.len()
        };
        if take_a {
            proof {
                assert(a@.skip(i as int)[0] == a@[i as int]);
                assert(a@.skip(i as int).skip(1) =~= a@.skip(i as int + 1));
                assert(merge_sorted(a@.skip(i as int), b@.skip(j as int)) == seq![a@[i as int]]
                    + merge_sorted(a@.skip(i as int + 1), b@.skip(j as int)));
                assert(out@ + merge_sorted(a@.skip(i as int), b@.skip(j as int)) =~= out@.push(
                    a@[i as int],
                ) + merge_sorted(a@.skip(i as int + 1), b@.skip(j as int)));
            }
            out.push((a[i].0, a[i].1.dup()));
            i += 1;
        } else {
            proof {
                assert(b@.skip(j as int)[0] == b@[j as int]);
                assert(b@.skip(j as int).skip(1) =~= b@.skip(j as int + 1));
                assert(merge_sorted(a@.skip(i as int), b@.skip(j as int)) == seq![b@[j as int]]
                    + merge_sorted(a@.skip(i as int), b@.skip(j as int + 1)));
                assert(out@ + merge_sorted(a@.skip(i as int), b@.skip(j as int)) =~= out@.push(
                    b@[j as int],
                ) + merge_sorted(a@.skip(i as int), b@.skip(j as int + 1)));
            }
            out.push((b[j].0, b[j].1.dup()));
            j += 1;
        }
    }
    proof {
        assert(a@.skip(a@.len() as int) =~= Seq::<(usize, Arg)>::empty());
        assert(b@.skip(b@.len() as int) =~= Seq::<(usize, Arg)>::empty());
        assert(out@ + merge_sorted(a@.skip(a@.len() as int), b@.skip(b@.len() as int)) =~= out@);
    }
    out
}

/// The arguments of a merged list, in order, indices dropped.
pub open spec fn args_of(s: Seq<(usize, Arg)>) -> Seq<Arg> {
    s.map_values(|p: (usize, Arg)| p.1)
}

impl Cmd {
    /// Re-assembles the plain and binary arguments into the order they were
    /// given on the command line, and requires their number to match what
    /// the invoked function expects.
    pub fn parse_args(&self, indexed_args: Vec<(usize, Arg)>, indexed_args_xdr: Vec<(usize, Arg)>, expected: usize) -> (r: Result<
        Vec<Arg>,
        Error,
    >)
        ensures
            r is Ok <==> indexed_args@.len() + indexed_args_xdr@.len() == expected,
            r matches Ok(v) ==> v@ == args_of(merge_sorted(indexed_args@, indexed_args_xdr@)),
            r matches Err(e) ==> e matches Error::UnexpectedArgumentCount {
                provided,
                expected: exp,
                function,
            } && provided == indexed_args@.len() + indexed_args_xdr@.len() && exp == expected
                && function@ == self.function@,
    {
        let merged = merge_indexed(&indexed_args, &indexed_args_xdr);
        proof {
            lemma_merge_sorted_len(indexed_args@, indexed_args_xdr@);
        }
        if merged.len() != expected {
            return Err(Error::UnexpectedArgumentCount {
                provided: merged.len(),
                expected,
                function: self.function.clone(),
            });
        }
        let mut out: Vec<Arg> = Vec::new();
        let mut i: usize = 0;
        while i < merged.len()
            invariant
                i <= merged@.len(),
                out@ == args_of(merged@).take(i as int),
            decreases merged@.len() - i,
        {
            out.push(merged[i].1.dup());
            proof {
                assert(out@ =~= args_of(merged@).take(i as int + 1));
            }
            i += 1;
        }
        proof {
            assert(args_of(merged@).take(merged@.len() as int) =~= args_of(merged@));
        }
        Ok(out)
    }
}

/// The merge of two lists holds every pair of both.
proof fn lemma_merge_sorted_len(a: Seq<(usize, Arg)>, b: Seq<(usize, Arg)>)
    ensures
        merge_sorted(a, b).len() == a.len() + b.len(),
    decreases a.len() + b.len(),
{
    if a.len() == 0 {
    } else if b.len() == 0 {
    } else if a[0].0 <= b[0].0 {
        lemma_merge_sorted_len(a.skip(1), b);
    } else {
        lemma_merge_sorted_len(a, b.skip(1));
    }
}

/// Reads a contract's code out of the footprint-recording storage, as the
/// execution engine's instantiation does: the contract-code key is touched
/// and its entry's payload is the deployed WASM.
pub fn get_contract_wasm_from_storage(storage: &mut Storage, contract_id: &Vec<u8>) -> (r: Option<
    Vec<u8>,
>)
    requires
        old(storage).wf(),
    ensures
        final(storage).wf(),
        final(storage).base_map() == old(storage).base_map(),
        match r {
            Option::Some(code) => old(storage).visible(contract_code_key(contract_id@)) matches Some(e)
                && e.data == code@,
            Option::None => old(storage).visible(contract_code_key(contract_id@)) is None,
        },
{
    let key = make_contract_code_key(contract_id);
    match storage.get(&key) {
        Option::Some(entry) => Option::Some(entry.data),
        Option::None => Option::None,
    }
}

/// Builds the canonical invocation of this command: the parsed contract
/// identifier, the function name's bytes, and the parsed argument values.
pub fn prepare_invocation(contract_id: &Vec<u8>, function_bytes: &Vec<u8>, args: Vec<Val>) -> (r:
    Invocation)
    ensures
        r.contract_id@ == contract_id@,
        r.method@ == function_bytes@,
        crate::tx::vals_view(r.args@) == crate::tx::vals_view(args@),
{
    Invocation {
        contract_id: clone_bytes(contract_id),
        method: clone_bytes(function_bytes),
        args,
    }
}

} // verus!
