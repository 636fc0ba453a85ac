use soroban_sandbox::codec::{decode_envelope, Invocation};
use soroban_sandbox::tx::{Account, Cond, FeeBumpTx, HostFn, Memo, Operation, Tx, TxEnvelope, TxV0,
    Val};

fn invoke_op(params: Vec<Val>) -> Operation {
    Operation::Invoke { func: HostFn::Call, params }
}

fn tx_with_ops(operations: Vec<Operation>) -> Tx {
    Tx {
        source: Account::Ed25519(vec![7u8; 32]),
        fee: 100,
        seq_num: 1,
        cond: Cond::Unbounded,
        memo: Memo::Absent,
        operations,
    }
}

fn valid_params() -> Vec<Val> {
    vec![
        Val::Bytes(vec![1u8; 32]),
        Val::Sym(b"hello".to_vec()),
        Val::U32(5),
        Val::I32(-3),
    ]
}

#[test]
fn decodes_valid_envelope() {
    let env = TxEnvelope::V1(tx_with_ops(vec![invoke_op(valid_params())]));
    let inv: Invocation = decode_envelope(&env).unwrap();
    assert_eq!(inv.contract_id, vec![1u8; 32]);
    assert_eq!(inv.method, b"hello".to_vec());
    assert_eq!(inv.args.len(), 2);
    assert!(matches!(inv.args[0], Val::U32(5)));
    assert!(matches!(inv.args[1], Val::I32(-3)));
}

#[test]
fn decodes_fee_bump_inner_transaction() {
    let env = TxEnvelope::FeeBump(FeeBumpTx {
        fee_source: Account::Muxed { id: 9, key: vec![2u8; 32] },
        fee: 500,
        inner: tx_with_ops(vec![invoke_op(valid_params())]),
    });
    let inv = decode_envelope(&env).unwrap();
    assert_eq!(inv.contract_id, vec![1u8; 32]);
}

#[test]
fn rejects_zero_operations() {
    let env = TxEnvelope::V1(tx_with_ops(vec![]));
    assert!(decode_envelope(&env).is_err());
}

#[test]
fn rejects_two_operations() {
    let env = TxEnvelope::V1(tx_with_ops(vec![
        invoke_op(valid_params()),
        invoke_op(valid_params()),
    ]));
    assert!(decode_envelope(&env).is_err());
}

#[test]
fn rejects_non_invoke_operation() {
    let env = TxEnvelope::V1(tx_with_ops(vec![Operation::Opaque { body: vec![1, 2, 3] }]));
    assert!(decode_envelope(&env).is_err());
}

#[test]
fn rejects_non_call_host_function() {
    let env = TxEnvelope::V1(tx_with_ops(vec![Operation::Invoke {
        func: HostFn::CreateContract,
        params: valid_params(),
    }]));
    assert!(decode_envelope(&env).is_err());
}

#[test]
fn rejects_fewer_than_two_parameters() {
    let env = TxEnvelope::V1(tx_with_ops(vec![invoke_op(vec![Val::Bytes(vec![1u8; 32])])]));
    assert!(decode_envelope(&env).is_err());
}

#[test]
fn rejects_short_contract_id() {
    let mut params = valid_params();
    params[0] = Val::Bytes(vec![1u8; 31]);
    let env = TxEnvelope::V1(tx_with_ops(vec![invoke_op(params)]));
    assert!(decode_envelope(&env).is_err());
}

#[test]
fn rejects_long_contract_id() {
    let mut params = valid_params();
    params[0] = Val::Bytes(vec![1u8; 33]);
    let env = TxEnvelope::V1(tx_with_ops(vec![invoke_op(params)]));
    assert!(decode_envelope(&env).is_err());
}

#[test]
fn rejects_non_bytes_contract_id() {
    let mut params = valid_params();
    params[0] = Val::U32(1);
    let env = TxEnvelope::V1(tx_with_ops(vec![invoke_op(params)]));
    assert!(decode_envelope(&env).is_err());
}

#[test]
fn rejects_numeric_method_parameter() {
    let mut params = valid_params();
    params[1] = Val::U32(1);
    let env = TxEnvelope::V1(tx_with_ops(vec![invoke_op(params)]));
    assert!(decode_envelope(&env).is_err());
}

#[test]
fn method_dual_encoding_decodes_alike() {
    let mut as_bytes = valid_params();
    as_bytes[1] = Val::Bytes(b"transfer".to_vec());
    let mut as_symbol = valid_params();
    as_symbol[1] = Val::Sym(b"transfer".to_vec());
    let env_bytes = TxEnvelope::V1(tx_with_ops(vec![invoke_op(as_bytes)]));
    let env_symbol = TxEnvelope::V1(tx_with_ops(vec![invoke_op(as_symbol)]));
    let inv_bytes = decode_envelope(&env_bytes).unwrap();
    let inv_symbol = decode_envelope(&env_symbol).unwrap();
    assert_eq!(inv_bytes.contract_id, inv_symbol.contract_id);
    assert_eq!(inv_bytes.method, inv_symbol.method);
    assert_eq!(inv_bytes.method, b"transfer".to_vec());
    assert_eq!(inv_bytes.args.len(), inv_symbol.args.len());
}

#[test]
fn legacy_envelope_decodes() {
    let env = TxEnvelope::V0(TxV0 {
        source_ed25519: vec![9u8; 32],
        fee: 10,
        seq_num: 7,
        time_bounds: None,
        memo: Memo::Id(4),
        operations: vec![invoke_op(valid_params())],
    });
    let inv = decode_envelope(&env).unwrap();
    assert_eq!(inv.method, b"hello".to_vec());
}
