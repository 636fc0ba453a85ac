//! Local execution sandbox for a smart-contract platform: a persisted ledger
//! snapshot with merge-on-commit semantics, a footprint-recording storage
//! adapter, a transaction-envelope codec and hasher, and a status-tracking
//! JSON-RPC dispatcher.

pub mod bytes;
pub mod codec;
pub mod hashing;
pub mod invoke;
pub mod jsonrpc;
pub mod network;
pub mod snapshot;
pub mod serve;
pub mod status;
pub mod storage;
pub mod tx;
pub mod utils;

use vstd::prelude::*;

verus! {

/// True exactly when the two byte vectors hold the same bytes.
pub fn bytes_eq(a: &Vec<u8>, b: &Vec<u8>) -> (r: bool)
    ensures
        r <==> a@ == b@,
{
    if a.len() != b.len() {
        return false;
    }
    let mut i: usize = 0;
    while i < a.len()
        invariant
            i <= a@.len(),
            a@.len() == b@.len(),
            forall|j: int| 0 <= j < i ==> a@[j] == b@[j],
        decreases a@.len() - i,
    {
        if a[i] != b[i] {
            return false;
        }
        i += 1;
    }
    proof {
        assert(a@ =~= b@);
    }
    true
}

} // verus!
