use soroban_sandbox::invoke::{get_contract_wasm_from_storage, prepare_invocation, Arg, Cmd, Error};
use soroban_sandbox::snapshot::Snapshot;
use soroban_sandbox::storage::Storage;
use soroban_sandbox::tx::Val;
use soroban_sandbox::utils::{add_contract_to_ledger_entries, contract_id_from_str};

fn cmd() -> Cmd {
    Cmd {
        contract_id: "01".repeat(32),
        wasm: None,
        function: "add".to_string(),
        args: vec![],
        args_xdr: vec![],
        cost: false,
        ledger_file: ".soroban/ledger.json".to_string(),
    }
}

#[test]
fn contract_id_parses_64_hex_digits() {
    let id = contract_id_from_str(&"01".repeat(32)).unwrap();
    assert_eq!(id, vec![1u8; 32]);
}

#[test]
fn contract_id_rejects_wrong_lengths_and_digits() {
    assert!(contract_id_from_str(&"01".repeat(31)).is_none());
    assert!(contract_id_from_str(&"01".repeat(33)).is_none());
    assert!(contract_id_from_str(&"zz".repeat(32)).is_none());
    assert!(contract_id_from_str(&"012".to_string()).is_none());
}

#[test]
fn parse_args_reassembles_command_line_order() {
    let plain = vec![
        (1usize, Arg::Arg("a".to_string())),
        (4usize, Arg::Arg("c".to_string())),
    ];
    let xdr = vec![(2usize, Arg::ArgXDR("b".to_string()))];
    let merged = cmd().parse_args(plain, xdr, 3).unwrap();
    assert!(matches!(&merged[0], Arg::Arg(s) if s == "a"));
    assert!(matches!(&merged[1], Arg::ArgXDR(s) if s == "b"));
    assert!(matches!(&merged[2], Arg::Arg(s) if s == "c"));
}

#[test]
fn parse_args_rejects_wrong_count() {
    let plain = vec![(1usize, Arg::Arg("a".to_string()))];
    match cmd().parse_args(plain, vec![], 2) {
        Err(Error::UnexpectedArgumentCount { provided, expected, function }) => {
            assert_eq!(provided, 1);
            assert_eq!(expected, 2);
            assert_eq!(function, "add".to_string());
        }
        _ => panic!("expected an argument-count error"),
    }
}

#[test]
fn deployed_contract_code_is_visible_to_storage() {
    let mut entries = Snapshot::new();
    let contract_id = vec![9u8; 32];
    add_contract_to_ledger_entries(&mut entries, &contract_id, b"wasm-bytes".to_vec());
    let mut storage = Storage::with_recording_footprint(entries);
    let code = get_contract_wasm_from_storage(&mut storage, &contract_id).unwrap();
    assert_eq!(code, b"wasm-bytes".to_vec());
}

#[test]
fn prepare_invocation_carries_the_triple() {
    let inv = prepare_invocation(&vec![1u8; 32], &b"add".to_vec(), vec![Val::U32(2), Val::U32(3)]);
    assert_eq!(inv.contract_id, vec![1u8; 32]);
    assert_eq!(inv.method, b"add".to_vec());
    assert_eq!(inv.args.len(), 2);
}
