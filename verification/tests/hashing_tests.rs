use soroban_sandbox::hashing::{hash_transaction_in_envelope, network_id};
use soroban_sandbox::network::SANDBOX_NETWORK_PASSPHRASE;
use soroban_sandbox::tx::{Account, Cond, HostFn, Memo, Operation, TimeBounds, Tx, TxEnvelope,
    TxV0, Val};
use soroban_sandbox::utils::hex_encode;

fn sample_tx() -> Tx {
    Tx {
        source: Account::Ed25519(vec![7u8; 32]),
        fee: 100,
        seq_num: 1,
        cond: Cond::Time(TimeBounds { min_time: 5, max_time: 10 }),
        memo: Memo::Text(b"memo".to_vec()),
        operations: vec![Operation::Invoke {
            func: HostFn::Call,
            params: vec![Val::Bytes(vec![1u8; 32]), Val::Sym(b"go".to_vec())],
        }],
    }
}

#[test]
fn network_id_is_sha256_of_passphrase() {
    let id = network_id(b"abc");
    assert_eq!(
        hex_encode(&id),
        "ba7816bf8f01cfea414140de5dae2223b00361a396177a9cb410ff61f20015ad".to_string()
    );
}

#[test]
fn hash_is_32_bytes() {
    let env = TxEnvelope::V1(sample_tx());
    let h = hash_transaction_in_envelope(&env, SANDBOX_NETWORK_PASSPHRASE.as_bytes());
    assert_eq!(h.len(), 32);
}

#[test]
fn hash_is_deterministic() {
    let env = TxEnvelope::V1(sample_tx());
    let h1 = hash_transaction_in_envelope(&env, SANDBOX_NETWORK_PASSPHRASE.as_bytes());
    let h2 = hash_transaction_in_envelope(&env, SANDBOX_NETWORK_PASSPHRASE.as_bytes());
    assert_eq!(h1, h2);
}

#[test]
fn hash_depends_on_passphrase() {
    let env = TxEnvelope::V1(sample_tx());
    let h1 = hash_transaction_in_envelope(&env, b"Local Sandbox Stellar Network ; September 2022");
    let h2 = hash_transaction_in_envelope(&env, b"Local Sandbox Stellar Network ; September 2023");
    assert_ne!(h1, h2);
}

#[test]
fn hash_depends_on_transaction_body() {
    let mut tx2 = sample_tx();
    tx2.fee = 101;
    let h1 = hash_transaction_in_envelope(&TxEnvelope::V1(sample_tx()), b"p");
    let h2 = hash_transaction_in_envelope(&TxEnvelope::V1(tx2), b"p");
    assert_ne!(h1, h2);
}

#[test]
fn legacy_envelope_hashes_like_its_canonical_shape() {
    // A legacy transaction and its canonical re-wrapping serialize to the
    // same signature payload, so their hashes agree.
    let v0 = TxV0 {
        source_ed25519: vec![7u8; 32],
        fee: 100,
        seq_num: 1,
        time_bounds: Some(TimeBounds { min_time: 5, max_time: 10 }),
        memo: Memo::Text(b"memo".to_vec()),
        operations: sample_tx().operations,
    };
    let h0 = hash_transaction_in_envelope(&TxEnvelope::V0(v0), b"p");
    let h1 = hash_transaction_in_envelope(&TxEnvelope::V1(sample_tx()), b"p");
    assert_eq!(h0, h1);
}

#[test]
fn hex_encode_is_lowercase_pairs() {
    assert_eq!(hex_encode(&vec![0xde, 0xad, 0x01]), "dead01".to_string());
    assert_eq!(hex_encode(&vec![]), "".to_string());
}
