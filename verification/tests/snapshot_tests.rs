use soroban_sandbox::snapshot::{commit, decode, read, Delta, DeltaRow, LedgerEntry, Snapshot};

fn entry(data: &[u8], seq: u32) -> LedgerEntry {
    LedgerEntry { data: data.to_vec(), last_modified: seq }
}

fn base_snapshot() -> Snapshot {
    let mut s = Snapshot::new();
    s.insert(b"alpha".to_vec(), entry(b"one", 1));
    s.insert(b"beta".to_vec(), entry(b"two", 2));
    s
}

#[test]
fn lookup_finds_inserted_entries() {
    let s = base_snapshot();
    let e = s.lookup(&b"alpha".to_vec()).unwrap();
    assert_eq!(e.data, b"one".to_vec());
    assert_eq!(e.last_modified, 1);
    assert!(s.lookup(&b"gamma".to_vec()).is_none());
}

#[test]
fn insert_replaces_in_place() {
    let mut s = base_snapshot();
    s.insert(b"alpha".to_vec(), entry(b"uno", 3));
    assert_eq!(s.len(), 2);
    assert_eq!(s.lookup(&b"alpha".to_vec()).unwrap().data, b"uno".to_vec());
}

#[test]
fn merge_overrides_deletes_and_keeps() {
    let s = base_snapshot();
    let delta = Delta {
        changes: vec![
            DeltaRow { key: b"alpha".to_vec(), val: Some(entry(b"new", 9)) },
            DeltaRow { key: b"beta".to_vec(), val: None },
            DeltaRow { key: b"gamma".to_vec(), val: Some(entry(b"three", 4)) },
        ],
    };
    let merged = s.merge(&delta);
    assert_eq!(merged.lookup(&b"alpha".to_vec()).unwrap().data, b"new".to_vec());
    assert!(merged.lookup(&b"beta".to_vec()).is_none());
    assert_eq!(merged.lookup(&b"gamma".to_vec()).unwrap().last_modified, 4);
    // The base snapshot is untouched: the delta is a separate overlay.
    assert_eq!(s.lookup(&b"beta".to_vec()).unwrap().data, b"two".to_vec());
}

#[test]
fn commit_with_empty_delta_is_byte_identical() {
    let s = base_snapshot();
    let d1 = Delta {
        changes: vec![DeltaRow { key: b"gamma".to_vec(), val: Some(entry(b"three", 4)) }],
    };
    let (after_first, bytes_first) = commit(&s, &d1);
    let (_, bytes_second) = commit(&after_first, &Delta::empty());
    assert_eq!(bytes_first, bytes_second);
}

#[test]
fn commit_then_read_round_trips() {
    let s = base_snapshot();
    let delta = Delta {
        changes: vec![
            DeltaRow { key: b"beta".to_vec(), val: None },
            DeltaRow { key: b"gamma".to_vec(), val: Some(entry(b"three", 4)) },
        ],
    };
    let (_, bytes) = commit(&s, &delta);
    let read_back = decode(&bytes).unwrap();
    assert_eq!(read_back.len(), 2);
    assert_eq!(read_back.lookup(&b"alpha".to_vec()).unwrap().data, b"one".to_vec());
    assert!(read_back.lookup(&b"beta".to_vec()).is_none());
    assert_eq!(read_back.lookup(&b"gamma".to_vec()).unwrap().data, b"three".to_vec());
}

#[test]
fn empty_snapshot_round_trips() {
    let s = Snapshot::new();
    let bytes = s.encode();
    let read_back = decode(&bytes).unwrap();
    assert_eq!(read_back.len(), 0);
}

fn push_prefixed(out: &mut Vec<u8>, b: &[u8]) {
    out.extend_from_slice(&(b.len() as u64).to_be_bytes());
    out.extend_from_slice(b);
}

fn push_row(out: &mut Vec<u8>, key: &[u8], data: &[u8], seq: u32) {
    push_prefixed(out, key);
    push_prefixed(out, data);
    out.extend_from_slice(&seq.to_be_bytes());
}

#[test]
fn duplicate_keys_are_corrupt() {
    let mut bytes: Vec<u8> = Vec::new();
    bytes.extend_from_slice(&2u64.to_be_bytes());
    push_row(&mut bytes, b"same", b"a", 1);
    push_row(&mut bytes, b"same", b"b", 2);
    assert!(decode(&bytes).is_err());

    let mut ok_bytes: Vec<u8> = Vec::new();
    ok_bytes.extend_from_slice(&2u64.to_be_bytes());
    push_row(&mut ok_bytes, b"one", b"a", 1);
    push_row(&mut ok_bytes, b"two", b"b", 2);
    let snap = decode(&ok_bytes).unwrap();
    assert_eq!(snap.lookup(&b"two".to_vec()).unwrap().data, b"b".to_vec());
}

#[test]
fn read_of_absent_file_bootstraps_empty() {
    let snap = read(None).unwrap();
    assert_eq!(snap.len(), 0);
}

#[test]
fn read_parses_present_bytes_or_rejects() {
    let bytes = base_snapshot().encode();
    let snap = read(Some(bytes)).unwrap();
    assert_eq!(snap.len(), 2);
    assert!(read(Some(vec![1, 2, 3])).is_err());
}

#[test]
fn corrupt_bytes_are_rejected() {
    assert!(decode(&vec![]).is_err());
    assert!(decode(&vec![0u8; 7]).is_err());
    // A row count with no rows behind it.
    assert!(decode(&vec![0, 0, 0, 0, 0, 0, 0, 5]).is_err());
    // Trailing garbage after a well-formed empty snapshot.
    let mut bytes = Snapshot::new().encode();
    bytes.push(0);
    assert!(decode(&bytes).is_err());
}
