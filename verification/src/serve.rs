//! The JSON-RPC dispatcher: routes named methods to snapshot reads,
//! transaction simulation and sending, and status queries. Execution itself
//! is the engine's; the dispatcher decides everything around it — what to
//! execute, whether to commit, what to record in the status tracker, and
//! what to answer.

use vstd::prelude::*;

use crate::codec::{decode_envelope, decode_ok, invocation_of, Invocation};
use crate::hashing::{hash_transaction_in_envelope, tx_hash};
use crate::jsonrpc::{id_matches, id_or_null, ErrorResponse, ErrorResponseError, Id, Response,
    ResultResponse};
use crate::snapshot::{commit, encode_spec, Snapshot};
use crate::status::{Cost, CostEntry, Receipt, Status, StatusV, Tracker};
use crate::storage::{delta_of, keys_set, ro_of, rw_of, Storage};
use crate::tx::{clone_bytes, TxEnvelope, Val};
use crate::utils::{contract_data_key, contract_id_from_str, hex_decode_spec, hex_encode, hex_of,
    make_contract_data_key, valid_hex};

verus! {

/// The serve command's configuration: the port to listen on and the file
/// that persists ledger state.
pub struct Cmd {
    pub port: u16,
    pub ledger_file: String,
}

/// The failures the dispatcher distinguishes; each maps to one JSON-RPC
/// error code in `reply`.
#[derive(Clone, Copy, Debug, PartialEq, Eq, Structural)]
pub enum Error {
    /// I/O failure around the snapshot file.
    Io,
    /// Malformed or rejected transaction envelope.
    Xdr,
    /// Execution engine failure: trap, budget exhaustion, missing key.
    Host,
    /// Corrupt persisted snapshot.
    Snapshot,
    /// Protocol-level serialization failure.
    Serde,
    /// A contract identifier that is not 64 hex digits.
    FromHex,
    /// The request names no known method.
    UnknownMethod,
}

/// The params shapes the dispatcher understands, already brought to plain
/// values by the transport: hex and envelope bytes are decoded before the
/// dispatcher sees them. A params value of the right shape whose content
/// could not be used — an empty string array, or an element that failed to
/// decode at the edge — arrives with `None` inside, so the dispatcher can
/// tell it from a shape that does not fit the method at all.
pub enum Requests {
    /// Params shaped as a two-string pair: a contract identifier in hex,
    /// and the datum key bytes if the key decoded at the edge.
    GetContractData(String, Option<Vec<u8>>),
    /// Params shaped as a string array: its first element as a transaction
    /// hash in hex, or nothing when the array is empty.
    Status(Option<String>),
    /// Params shaped as a string array for an envelope method: the decoded
    /// envelope, or nothing when the array is empty or its first element
    /// did not decode.
    Envelope(Option<TxEnvelope>),
}

/// One inbound request.
pub struct Request {
    pub jsonrpc: String,
    pub id: Option<Id>,
    pub method: String,
    pub params: Option<Requests>,
}

/// The payloads a successful response can carry.
pub enum ResultPayload {
    /// A stored contract datum: its bytes, its last-modified sequence, and
    /// the latest ledger sequence.
    ContractData { xdr: Vec<u8>, last_modified_ledger_seq: u32, latest_ledger: u32 },
    /// A tracked transaction status.
    Status(Status),
    /// The embedded not-found answer of a status query — carried inside a
    /// successful envelope, not as a protocol-level error.
    StatusNotFound { code: i64, message: String },
    /// What a simulated or sent execution produced.
    Simulation { receipt: Receipt, latest_ledger: u32 },
    /// The acceptance acknowledgement of a sent transaction: its id, still
    /// pending from the caller's point of view.
    SendAck { id: String },
}

/// What the execution engine reported back for one invocation.
pub enum EngineOutcome {
    /// The returned value and the consumed budget, with its per-category
    /// breakdown.
    Success { result: Val, cpu_insns: u64, mem_bytes: u64, cost_breakdown: Vec<CostEntry> },
    /// Any engine-level failure; no commit may follow it.
    Failure,
}

/// What the dispatcher decided for one request: answer at once, or run the
/// invocation through the engine first.
pub enum HandlerAction {
    /// The final response.
    Respond(Response<ResultPayload>),
    /// Run `invocation` against the current snapshot; commit the delta on
    /// success when `commit` is set. For a send, `id` carries the
    /// transaction id whose pending entry was just recorded.
    Execute { invocation: Invocation, commit: bool, id: Option<String> },
}

/// The fixed JSON-RPC error code of each failure.
pub open spec fn error_code(e: Error) -> i64 {
    match e {
        Error::Serde => -32700i64,
        Error::UnknownMethod => -32601i64,
        _ => -32603i64,
    }
}

/// Wraps an outcome in a response envelope: a result as-is, an error under
/// its fixed code, never leaking more than the message text.
pub fn reply(id: &Option<Id>, result: Result<ResultPayload, Error>) -> (r: Response<ResultPayload>)
    ensures
        result is Ok <==> r is Success,
        r matches Response::Success(rr) ==> rr.jsonrpc@ == "2.0"@ && id_matches(rr.id, *id)
            && (result matches Ok(p) && rr.result == p),
        r matches Response::Failure(er) ==> er.jsonrpc@ == "2.0"@ && id_matches(er.id, *id)
            && (result matches Err(e) && er.error.code == error_code(e)),
{
    let version: String = "2.0".to_owned();
    match result {
        Ok(res) => Response::Success(ResultResponse {
            jsonrpc: version,
            id: id_or_null(id),
            result: res,
        }),
        Err(err) => {
            let code: i64 = match err {
                Error::Serde => -32700,
                Error::UnknownMethod => -32601,
                _ => -32603,
            };
            Response::Failure(ErrorResponse {
                jsonrpc: version,
                id: id_or_null(id),
                error: ErrorResponseError { code, message: error_message(&err) },
            })
        }
    }
}

/// A short human-readable name for a failure; detail text only, never
/// machine-parseable structure.
pub fn error_message(e: &Error) -> (r: String)
    ensures
        e is Io ==> r@ == "io"@,
        e is Xdr ==> r@ == "xdr"@,
        e is Host ==> r@ == "host"@,
        e is Snapshot ==> r@ == "snapshot"@,
        e is Serde ==> r@ == "serde"@,
        e is FromHex ==> r@ == "hex"@,
        e is UnknownMethod ==> r@ == "unknownmethod"@,
{
    match e {
        Error::Io => "io".to_owned(),
        Error::Xdr => "xdr".to_owned(),
        Error::Host => "host".to_owned(),
        Error::Snapshot => "snapshot".to_owned(),
        Error::Serde => "serde".to_owned(),
        Error::FromHex => "hex".to_owned(),
        Error::UnknownMethod => "unknownmethod".to_owned(),
    }
}

/// Parses and validates a transaction envelope: computes its hash under the
/// network passphrase and reduces it to its canonical invocation. Succeeds
/// exactly on envelopes shaped as one invoke-call operation; never returns
/// a partial invocation.
pub fn parse_transaction(envelope: &TxEnvelope, passphrase: &[u8]) -> (r: Result<
    (Vec<u8>, Invocation),
    Error,
>)
    ensures
        r is Ok <==> decode_ok(envelope@),
        r matches Ok(p) ==> p.0@ == tx_hash(envelope@, passphrase@) && p.1@ == invocation_of(
            envelope@,
        ),
        r matches Err(e) ==> e == Error::Xdr,
{
    let hash = hash_transaction_in_envelope(envelope, passphrase);
    match decode_envelope(envelope) {
        Ok(invocation) => Ok((hash, invocation)),
        Err(_) => Err(Error::Xdr),
    }
}

/// Reads one contract datum from the current snapshot: a pure read, no
/// execution and no footprint.
pub fn get_contract_data(contract_id_hex: &String, key: &Vec<u8>, snap: &Snapshot) -> (r: Result<
    ResultPayload,
    Error,
>)
    requires
        snap.wf(),
    ensures
        r is Ok <==> valid_hex(contract_id_hex@) && hex_decode_spec(contract_id_hex@).len() == 32
            && snap@.contains_key(
            contract_data_key(hex_decode_spec(contract_id_hex@), key@),
        ),
        r matches Ok(p) ==> p matches ResultPayload::ContractData {
            xdr,
            last_modified_ledger_seq,
            latest_ledger,
        } && xdr@ == snap@[contract_data_key(hex_decode_spec(contract_id_hex@), key@)].data
            && last_modified_ledger_seq == snap@[contract_data_key(
            hex_decode_spec(contract_id_hex@),
            key@,
        )].last_modified && latest_ledger == 1,
        r matches Err(e) ==> e == Error::FromHex || e == Error::Host,
{
    let contract_id = match contract_id_from_str(contract_id_hex) {
        Option::Some(b) => b,
        Option::None => {
            return Err(Error::FromHex);
        }
    };
    let ledger_key = make_contract_data_key(&contract_id, key);
    match snap.lookup(&ledger_key) {
        Option::Some(entry) => Ok(ResultPayload::ContractData {
            xdr: clone_bytes(&entry.data),
            last_modified_ledger_seq: entry.last_modified,
            latest_ledger: 1,
        }),
        Option::None => Err(Error::Host),
    }
}

/// Closes out one execution: builds the receipt (result value, cost,
/// footprint) from what the engine and the recording adapter saw, and, only
/// on success and only when asked to, merges the delta into the base
/// snapshot and produces the exact bytes to persist. No commit ever happens
/// on failure, and a simulation commits nothing.
pub fn execute_transaction(storage: Storage, outcome: EngineOutcome, commit_delta: bool) -> (r: (
    Result<Receipt, Error>,
    Option<(Snapshot, Vec<u8>)>,
))
    requires
        storage.wf(),
    ensures
        outcome is Failure ==> (r.0 matches Err(e) && e == Error::Host && r.1 is None),
        outcome matches EngineOutcome::Success { result, cpu_insns, mem_bytes, cost_breakdown }
            ==> {
            &&& r.0 matches Ok(receipt) && receipt.result@ == result@ && receipt.cost == (Cost {
                cpu_insns,
                mem_bytes,
            }) && receipt.cost_breakdown == cost_breakdown && keys_set(receipt.footprint_ro@)
                == ro_of(storage.accesses()) && keys_set(receipt.footprint_rw@) == rw_of(
                storage.accesses(),
            )
            &&& commit_delta ==> (r.1 matches Some(c) && c.0.wf()
                && c.0@ == crate::snapshot::merge_spec(
                storage.base_map(),
                delta_of(storage.accesses()),
            ) && c.1@ == encode_spec(c.0.rows()))
            &&& !commit_delta ==> r.1 is None
        },
{
    match outcome {
        EngineOutcome::Failure => (Err(Error::Host), Option::None),
        EngineOutcome::Success { result, cpu_insns, mem_bytes, cost_breakdown } => {
            let (footprint_ro, footprint_rw) = storage.footprint();
            let receipt = Receipt {
                result,
                cost: Cost { cpu_insns, mem_bytes },
                cost_breakdown,
                footprint_ro,
                footprint_rw,
            };
            if commit_delta {
                let delta = storage.delta();
                let base = storage.into_base();
                let committed = commit(&base, &delta);
                (Ok(receipt), Option::Some(committed))
            } else {
                (Ok(receipt), Option::None)
            }
        }
    }
}

/// Records the terminal status of a sent transaction, overwriting its
/// pending entry: the receipt on success, the fixed internal-error payload
/// on failure.
pub fn record_send_result(tracker: &mut Tracker, id: String, result: Result<Receipt, Error>)
    requires
        old(tracker).wf(),
    ensures
        final(tracker).wf(),
        result matches Ok(receipt) ==> final(tracker)@ == old(tracker)@.insert(
            id@,
            StatusV::Success(receipt@),
        ),
        result is Err ==> final(tracker)@ == old(tracker)@.insert(
            id@,
            StatusV::Failed { code: -32603i64, message: "Internal server error"@ },
        ),
{
    match result {
        Ok(receipt) => tracker.set(id, Status::Success(receipt)),
        Err(_) => tracker.set(
            id,
            Status::Failed { code: -32603, message: "Internal server error".to_owned() },
        ),
    }
}

/// Builds the response of a sent transaction once its terminal status is
/// recorded: always the pending acknowledgement carrying exactly the
/// transaction id — the caller is told `pending` even though execution and
/// status finalization already completed, an observable behavior this
/// sandbox deliberately preserves.
pub fn send_response(id: &Option<Id>, tx_id: String) -> (r: Response<ResultPayload>)
    ensures
        r matches Response::Success(rr) && rr.jsonrpc@ == "2.0"@ && id_matches(rr.id, *id)
            && (rr.result matches ResultPayload::SendAck { id: out } && out@ == tx_id@),
{
    reply(id, Ok(ResultPayload::SendAck { id: tx_id }))
}

/// The request asks for a contract datum with well-shaped params.
pub open spec fn routes_get_contract_data(req: Request) -> bool {
    req.method@ == "getContractData"@ && req.params matches Some(Requests::GetContractData(_, _))
}

/// The request asks for a transaction status with well-shaped params.
pub open spec fn routes_status(req: Request) -> bool {
    req.method@ == "getTransactionStatus"@ && req.params matches Some(Requests::Status(_))
}

/// The request asks for a simulation with well-shaped params.
pub open spec fn routes_simulate(req: Request) -> bool {
    req.method@ == "simulateTransaction"@ && req.params matches Some(Requests::Envelope(_))
}

/// The request asks to send a transaction with well-shaped params.
pub open spec fn routes_send(req: Request) -> bool {
    req.method@ == "sendTransaction"@ && req.params matches Some(Requests::Envelope(_))
}

/// True exactly when the method string equals the given name.
fn method_is(m: &String, lit: &str) -> (r: bool)
    ensures
        r <==> m@ == lit@,
{
    let l: String = lit.to_owned();
    m.eq(&l)
}

/// Routes one request. Requests that need no execution are answered at
/// once; simulation and sending hand back the invocation to run, after the
/// send's pending entry is already recorded — the tracker holds `Pending`
/// for the transaction id before the engine ever starts. A method-params
/// combination outside the served ones — an unknown name, or a known name
/// whose params are absent or of another method's shape — is answered
/// unknown-method; params of the right shape whose content is unusable are
/// an internal error.
pub fn handler(req: Request, snap: &Snapshot, tracker: &mut Tracker, passphrase: &[u8]) -> (r:
    HandlerAction)
    requires
        snap.wf(),
        old(tracker).wf(),
    ensures
        final(tracker).wf(),
        req.jsonrpc@ != "2.0"@ ==> (r matches HandlerAction::Respond(Response::Failure(er))
            && er.error.code == -32600 && final(tracker)@ == old(tracker)@),
        req.jsonrpc@ == "2.0"@ ==> {
            &&& routes_simulate(req) ==> {
                let p = req.params->Some_0->Envelope_0;
                &&& p is None ==> (r matches HandlerAction::Respond(Response::Failure(er))
                    && er.error.code == -32603 && final(tracker)@ == old(tracker)@)
                &&& p matches Some(e) ==> {
                    &&& decode_ok(e@) ==> (r matches HandlerAction::Execute {
                        invocation,
                        commit,
                        id,
                    } && !commit && id is None && invocation@ == invocation_of(e@)
                        && final(tracker)@ == old(tracker)@)
                    &&& !decode_ok(e@) ==> (r matches HandlerAction::Respond(
                        Response::Failure(er),
                    ) && er.error.code == -32603 && final(tracker)@ == old(tracker)@)
                }
            }
            &&& routes_send(req) ==> {
                let p = req.params->Some_0->Envelope_0;
                &&& p is None ==> (r matches HandlerAction::Respond(Response::Failure(er))
                    && er.error.code == -32603 && final(tracker)@ == old(tracker)@)
                &&& p matches Some(e) ==> {
                    &&& decode_ok(e@) ==> (r matches HandlerAction::Execute {
                        invocation,
                        commit,
                        id,
                    } && commit && (id matches Some(tx_id) && invocation@ == invocation_of(e@)
                        && tx_id@ == hex_of(tx_hash(e@, passphrase@))
                        && final(tracker)@ == old(tracker)@.insert(
                        hex_of(tx_hash(e@, passphrase@)),
                        StatusV::Pending,
                    )))
                    &&& !decode_ok(e@) ==> (r matches HandlerAction::Respond(
                        Response::Failure(er),
                    ) && er.error.code == -32603 && final(tracker)@ == old(tracker)@)
                }
            }
            &&& routes_status(req) ==> {
                let h = req.params->Some_0->Status_0;
                &&& final(tracker)@ == old(tracker)@
                &&& h is None ==> (r matches HandlerAction::Respond(Response::Failure(er))
                    && er.error.code == -32603)
                &&& h matches Some(hs) ==> {
                    &&& old(tracker)@.contains_key(hs@) ==> (r matches HandlerAction::Respond(
                        Response::Success(rr),
                    ) && rr.result matches ResultPayload::Status(st) && st@ == old(tracker)@[hs@])
                    &&& !old(tracker)@.contains_key(hs@) ==> (r matches HandlerAction::Respond(
                        Response::Success(rr),
                    ) && rr.result matches ResultPayload::StatusNotFound { code, .. } && code
                        == 404)
                }
            }
            &&& routes_get_contract_data(req) ==> {
                let cid = req.params->Some_0->GetContractData_0;
                let kopt = req.params->Some_0->GetContractData_1;
                &&& final(tracker)@ == old(tracker)@
                &&& kopt is None ==> (r matches HandlerAction::Respond(Response::Failure(er))
                    && er.error.code == -32603)
                &&& kopt matches Some(key) ==> {
                    let lk = contract_data_key(hex_decode_spec(cid@), key@);
                    &&& valid_hex(cid@) && hex_decode_spec(cid@).len() == 32
                        && snap@.contains_key(lk) ==> (r matches HandlerAction::Respond(
                        Response::Success(rr),
                    ) && (rr.result matches ResultPayload::ContractData {
                        xdr,
                        last_modified_ledger_seq,
                        latest_ledger,
                    } && xdr@ == snap@[lk].data
                        && last_modified_ledger_seq == snap@[lk].last_modified
                        && latest_ledger == 1))
                    &&& !(valid_hex(cid@) && hex_decode_spec(cid@).len() == 32
                        && snap@.contains_key(lk)) ==> (r matches HandlerAction::Respond(
                        Response::Failure(er),
                    ) && er.error.code == -32603)
                }
            }
            &&& !(routes_get_contract_data(req) || routes_status(req) || routes_simulate(req)
                || routes_send(req)) ==> (r matches HandlerAction::Respond(Response::Failure(er))
                && er.error.code == -32601 && final(tracker)@ == old(tracker)@)
        },
{
    // The four method names are pairwise distinct strings, so exactly one
    // route can claim a request.
    proof {
        reveal_strlit("getContractData");
        reveal_strlit("getTransactionStatus");
        reveal_strlit("simulateTransaction");
        reveal_strlit("sendTransaction");
        assert(("simulateTransaction"@)[1] != ("sendTransaction"@)[1]);
        assert("simulateTransaction"@ != "sendTransaction"@);
        assert(("getContractData"@)[0] != ("sendTransaction"@)[0]);
        assert("getContractData"@ != "sendTransaction"@);
        assert(("getTransactionStatus"@)[0] != ("sendTransaction"@)[0]);
        assert("getTransactionStatus"@ != "sendTransaction"@);
        assert(("getContractData"@)[0] != ("simulateTransaction"@)[0]);
        assert("getContractData"@ != "simulateTransaction"@);
        assert(("getTransactionStatus"@)[0] != ("simulateTransaction"@)[0]);
        assert("getTransactionStatus"@ != "simulateTransaction"@);
        assert(("getContractData"@)[3] != ("getTransactionStatus"@)[3]);
        assert("getContractData"@ != "getTransactionStatus"@);
    }
    if !method_is(&req.jsonrpc, "2.0") {
        let version: String = "2.0".to_owned();
        return HandlerAction::Respond(Response::Failure(ErrorResponse {
            jsonrpc: version,
            id: id_or_null(&req.id),
            error: ErrorResponseError {
                code: -32600,
                message: "Invalid jsonrpc value in request".to_owned(),
            },
        }));
    }
    let is_gcd = method_is(&req.method, "getContractData");
    let is_status = method_is(&req.method, "getTransactionStatus");
    let is_simulate = method_is(&req.method, "simulateTransaction");
    let is_send = method_is(&req.method, "sendTransaction");
    if is_gcd {
        match &req.params {
            Some(Requests::GetContractData(contract_id, key_opt)) => match key_opt {
                Option::Some(key) => HandlerAction::Respond(
                    reply(&req.id, get_contract_data(contract_id, key, snap)),
                ),
                Option::None => HandlerAction::Respond(reply(&req.id, Err(Error::Xdr))),
            },
            _ => HandlerAction::Respond(reply(&req.id, Err(Error::UnknownMethod))),
        }
    } else if is_status {
        match &req.params {
            Some(Requests::Status(hash_opt)) => match hash_opt {
                Option::Some(hash) => {
                    let payload = match tracker.get(hash) {
                        Option::Some(status) => ResultPayload::Status(status.dup()),
                        Option::None => ResultPayload::StatusNotFound {
                            code: 404,
                            message: "Transaction not found".to_owned(),
                        },
                    };
                    HandlerAction::Respond(reply(&req.id, Ok(payload)))
                }
                Option::None => HandlerAction::Respond(reply(&req.id, Err(Error::Xdr))),
            },
            _ => HandlerAction::Respond(reply(&req.id, Err(Error::UnknownMethod))),
        }
    } else if is_simulate {
        match &req.params {
            Some(Requests::Envelope(env_opt)) => match env_opt {
                Option::Some(envelope) => {
                    proof {
                        assert(*envelope == req.params->Some_0->Envelope_0->Some_0);
                    }
                    match parse_transaction(envelope, passphrase) {
                        Ok((_, invocation)) => HandlerAction::Execute {
                            invocation,
                            commit: false,
                            id: Option::None,
                        },
                        Err(e) => HandlerAction::Respond(reply(&req.id, Err(e))),
                    }
                }
                Option::None => HandlerAction::Respond(reply(&req.id, Err(Error::Xdr))),
            },
            _ => HandlerAction::Respond(reply(&req.id, Err(Error::UnknownMethod))),
        }
    } else if is_send {
        match &req.params {
            Some(Requests::Envelope(env_opt)) => match env_opt {
                Option::Some(envelope) => {
                    proof {
                        assert(*envelope == req.params->Some_0->Envelope_0->Some_0);
                    }
                    match parse_transaction(envelope, passphrase) {
                        Ok((hash, invocation)) => {
                            let id = hex_encode(&hash);
                            tracker.set(id.clone(), Status::Pending);
                            HandlerAction::Execute {
                                invocation,
                                commit: true,
                                id: Option::Some(id),
                            }
                        }
                        Err(e) => HandlerAction::Respond(reply(&req.id, Err(e))),
                    }
                }
                Option::None => HandlerAction::Respond(reply(&req.id, Err(Error::Xdr))),
            },
            _ => HandlerAction::Respond(reply(&req.id, Err(Error::UnknownMethod))),
        }
    } else {
        HandlerAction::Respond(reply(&req.id, Err(Error::UnknownMethod)))
    }
}

} // verus!
