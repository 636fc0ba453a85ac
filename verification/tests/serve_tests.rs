use soroban_sandbox::jsonrpc::{Id, Response};
use soroban_sandbox::serve::{execute_transaction, handler, record_send_result, reply,
    send_response, EngineOutcome, Error, HandlerAction, Requests, Request, ResultPayload};
use soroban_sandbox::snapshot::{LedgerEntry, Snapshot};
use soroban_sandbox::status::{CostEntry, Status, Tracker};
use soroban_sandbox::storage::Storage;
use soroban_sandbox::tx::{Account, Cond, HostFn, Memo, Operation, Tx, TxEnvelope, Val};
use soroban_sandbox::utils::{hex_encode, make_contract_data_key};

const PASS: &[u8] = b"Local Sandbox Stellar Network ; September 2022";

fn entry(data: &[u8], seq: u32) -> LedgerEntry {
    LedgerEntry { data: data.to_vec(), last_modified: seq }
}

fn request(method: &str, params: Option<Requests>) -> Request {
    Request {
        jsonrpc: "2.0".to_string(),
        id: Some(Id::Num(1)),
        method: method.to_string(),
        params,
    }
}

fn valid_envelope() -> TxEnvelope {
    TxEnvelope::V1(Tx {
        source: Account::Ed25519(vec![7u8; 32]),
        fee: 100,
        seq_num: 1,
        cond: Cond::Unbounded,
        memo: Memo::Absent,
        operations: vec![Operation::Invoke {
            func: HostFn::Call,
            params: vec![Val::Bytes(vec![1u8; 32]), Val::Sym(b"set".to_vec())],
        }],
    })
}

fn error_code_of(r: &Response<ResultPayload>) -> i64 {
    match r {
        Response::Failure(er) => er.error.code,
        Response::Success(_) => panic!("expected an error response"),
    }
}

#[test]
fn wrong_jsonrpc_version_gets_32600() {
    let mut tracker = Tracker::new();
    let snap = Snapshot::new();
    let mut req = request("getTransactionStatus", Some(Requests::Status(Some("00".to_string()))));
    req.jsonrpc = "1.0".to_string();
    match handler(req, &snap, &mut tracker, PASS) {
        HandlerAction::Respond(r) => assert_eq!(error_code_of(&r), -32600),
        _ => panic!("expected a response"),
    }
}

#[test]
fn unknown_method_gets_32601() {
    let mut tracker = Tracker::new();
    let snap = Snapshot::new();
    let req = request("fooBar", Some(Requests::Status(Some("00".to_string()))));
    match handler(req, &snap, &mut tracker, PASS) {
        HandlerAction::Respond(r) => assert_eq!(error_code_of(&r), -32601),
        _ => panic!("expected a response"),
    }
}

#[test]
fn known_method_with_absent_params_gets_32601() {
    // A known method whose params are absent, or of another method's
    // shape, falls through the routing like an unknown method.
    let snap = Snapshot::new();
    for method in ["getContractData", "getTransactionStatus", "simulateTransaction",
        "sendTransaction"] {
        let mut tracker = Tracker::new();
        let req = request(method, None);
        match handler(req, &snap, &mut tracker, PASS) {
            HandlerAction::Respond(r) => assert_eq!(error_code_of(&r), -32601),
            _ => panic!("expected a response"),
        }
    }
}

#[test]
fn known_method_with_wrong_param_shape_gets_32601() {
    let snap = Snapshot::new();
    let mut tracker = Tracker::new();
    let req = request("sendTransaction", Some(Requests::Status(Some("00".to_string()))));
    match handler(req, &snap, &mut tracker, PASS) {
        HandlerAction::Respond(r) => assert_eq!(error_code_of(&r), -32601),
        _ => panic!("expected a response"),
    }
}

#[test]
fn empty_params_array_gets_32603() {
    // Params of the right shape with no usable content are an internal
    // error, as when the original found an empty string array.
    let snap = Snapshot::new();
    let cases: Vec<Request> = vec![
        request("getTransactionStatus", Some(Requests::Status(None))),
        request("simulateTransaction", Some(Requests::Envelope(None))),
        request("sendTransaction", Some(Requests::Envelope(None))),
        request("getContractData", Some(Requests::GetContractData("00".to_string(), None))),
    ];
    for req in cases {
        let mut tracker = Tracker::new();
        match handler(req, &snap, &mut tracker, PASS) {
            HandlerAction::Respond(r) => assert_eq!(error_code_of(&r), -32603),
            _ => panic!("expected a response"),
        }
    }
}

#[test]
fn reply_maps_error_kinds_to_fixed_codes() {
    let id = Some(Id::Num(4));
    assert_eq!(error_code_of(&reply(&id, Err(Error::Serde))), -32700);
    assert_eq!(error_code_of(&reply(&id, Err(Error::UnknownMethod))), -32601);
    assert_eq!(error_code_of(&reply(&id, Err(Error::Xdr))), -32603);
    assert_eq!(error_code_of(&reply(&id, Err(Error::Host))), -32603);
    assert_eq!(error_code_of(&reply(&id, Err(Error::FromHex))), -32603);
}

#[test]
fn malformed_envelope_is_rejected_with_32603() {
    let mut tracker = Tracker::new();
    let snap = Snapshot::new();
    let bad = TxEnvelope::V1(Tx {
        source: Account::Ed25519(vec![7u8; 32]),
        fee: 100,
        seq_num: 1,
        cond: Cond::Unbounded,
        memo: Memo::Absent,
        operations: vec![],
    });
    let req = request("sendTransaction", Some(Requests::Envelope(Some(bad))));
    match handler(req, &snap, &mut tracker, PASS) {
        HandlerAction::Respond(r) => assert_eq!(error_code_of(&r), -32603),
        _ => panic!("expected a response"),
    }
}

#[test]
fn get_contract_data_reads_stored_entry() {
    let contract_id = vec![1u8; 32];
    let datum_key = b"counter".to_vec();
    let ledger_key = make_contract_data_key(&contract_id, &datum_key);
    let mut snap = Snapshot::new();
    snap.insert(ledger_key, entry(b"42", 7));
    let mut tracker = Tracker::new();
    let hexid = hex_encode(&contract_id);
    let req = request("getContractData", Some(Requests::GetContractData(hexid, Some(datum_key))));
    match handler(req, &snap, &mut tracker, PASS) {
        HandlerAction::Respond(Response::Success(rr)) => match rr.result {
            ResultPayload::ContractData { xdr, last_modified_ledger_seq, latest_ledger } => {
                assert_eq!(xdr, b"42".to_vec());
                assert_eq!(last_modified_ledger_seq, 7);
                assert_eq!(latest_ledger, 1);
            }
            _ => panic!("expected contract data"),
        },
        _ => panic!("expected a successful response"),
    }
}

#[test]
fn get_contract_data_bad_hex_fails() {
    let mut tracker = Tracker::new();
    let snap = Snapshot::new();
    let req = request(
        "getContractData",
        Some(Requests::GetContractData("zz".to_string(), Some(b"k".to_vec()))),
    );
    match handler(req, &snap, &mut tracker, PASS) {
        HandlerAction::Respond(r) => assert_eq!(error_code_of(&r), -32603),
        _ => panic!("expected a response"),
    }
}

#[test]
fn status_of_unknown_transaction_is_embedded_404() {
    let mut tracker = Tracker::new();
    let snap = Snapshot::new();
    let req = request("getTransactionStatus", Some(Requests::Status(Some("ab".to_string()))));
    match handler(req, &snap, &mut tracker, PASS) {
        HandlerAction::Respond(Response::Success(rr)) => match rr.result {
            ResultPayload::StatusNotFound { code, message } => {
                assert_eq!(code, 404);
                assert_eq!(message, "Transaction not found".to_string());
            }
            _ => panic!("expected the embedded not-found payload"),
        },
        _ => panic!("expected a successful envelope"),
    }
}

/// Drives one execution the way the engine would: writes key `k`.
fn run_engine(snap: Snapshot, k: &Vec<u8>, commit: bool) -> (Result<soroban_sandbox::status::Receipt, Error>, Option<(Snapshot, Vec<u8>)>) {
    let mut storage = Storage::with_recording_footprint(snap);
    let _ = storage.get(k);
    storage.put(k, entry(b"new-value", 2));
    let outcome = EngineOutcome::Success {
        result: Val::U32(1),
        cpu_insns: 10,
        mem_bytes: 20,
        cost_breakdown: vec![CostEntry { category: "WasmInsnExec".to_string(), amount: 7 }],
    };
    execute_transaction(storage, outcome, commit)
}

#[test]
fn simulate_reports_footprint_but_commits_nothing() {
    let k = b"mutated-key".to_vec();
    let mut snap = Snapshot::new();
    snap.insert(k.clone(), entry(b"old-value", 1));
    let mut tracker = Tracker::new();
    let req = request("simulateTransaction", Some(Requests::Envelope(Some(valid_envelope()))));
    let action = handler(req, &snap, &mut tracker, PASS);
    match action {
        HandlerAction::Execute { commit, id, .. } => {
            assert!(!commit);
            assert!(id.is_none());
        }
        _ => panic!("expected an execution"),
    }
    let (receipt, committed) = run_engine(snap, &k, false);
    let receipt = receipt.unwrap();
    assert!(receipt.footprint_rw.contains(&k));
    assert!(committed.is_none(), "a simulation must leave the snapshot untouched");
}

#[test]
fn send_commits_the_delta_and_tracks_status() {
    let k = b"mutated-key".to_vec();
    let mut snap = Snapshot::new();
    snap.insert(k.clone(), entry(b"old-value", 1));
    let mut tracker = Tracker::new();
    let req = request("sendTransaction", Some(Requests::Envelope(Some(valid_envelope()))));
    let action = handler(req, &snap, &mut tracker, PASS);
    let id = match action {
        HandlerAction::Execute { commit, id, .. } => {
            assert!(commit);
            id.unwrap()
        }
        _ => panic!("expected an execution"),
    };
    // Pending is recorded before the engine runs.
    assert!(matches!(tracker.get(&id), Some(Status::Pending)));
    let (receipt, committed) = run_engine(snap, &k, true);
    let receipt_ref = receipt.as_ref().unwrap();
    assert!(receipt_ref.footprint_rw.contains(&k));
    let (new_snap, _bytes) = committed.unwrap();
    assert_eq!(new_snap.lookup(&k).unwrap().data, b"new-value".to_vec());
    record_send_result(&mut tracker, id.clone(), receipt);
    // The caller is still answered with the pending acknowledgement
    // carrying the transaction id, though execution already finished.
    match send_response(&Some(Id::Num(1)), id.clone()) {
        Response::Success(rr) => match rr.result {
            ResultPayload::SendAck { id: ack_id } => assert_eq!(ack_id, id),
            _ => panic!("expected the pending acknowledgement"),
        },
        _ => panic!("expected a successful envelope"),
    }
    // The terminal state replaced the pending entry; never not-found.
    match tracker.get(&id) {
        Some(Status::Success(r)) => {
            assert_eq!(r.cost.cpu_insns, 10);
            assert_eq!(r.cost.mem_bytes, 20);
            assert_eq!(r.cost_breakdown.len(), 1);
            assert_eq!(r.cost_breakdown[0].category, "WasmInsnExec".to_string());
            assert_eq!(r.cost_breakdown[0].amount, 7);
        }
        other => panic!("expected a terminal success, got {:?}", other.is_some()),
    }
}

#[test]
fn failed_send_records_internal_error() {
    let mut tracker = Tracker::new();
    let storage = Storage::with_recording_footprint(Snapshot::new());
    let (result, committed) = execute_transaction(storage, EngineOutcome::Failure, true);
    assert!(committed.is_none(), "no commit may follow a failure");
    record_send_result(&mut tracker, "aa".to_string(), result);
    match tracker.get(&"aa".to_string()) {
        Some(Status::Failed { code, message }) => {
            assert_eq!(*code, -32603);
            assert_eq!(message, &"Internal server error".to_string());
        }
        _ => panic!("expected a failed status"),
    }
}
