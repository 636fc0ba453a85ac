use soroban_sandbox::snapshot::{LedgerEntry, Snapshot};
use soroban_sandbox::storage::Storage;

fn entry(data: &[u8], seq: u32) -> LedgerEntry {
    LedgerEntry { data: data.to_vec(), last_modified: seq }
}

fn base() -> Snapshot {
    let mut s = Snapshot::new();
    s.insert(b"k1".to_vec(), entry(b"v1", 1));
    s.insert(b"k2".to_vec(), entry(b"v2", 1));
    s
}

#[test]
fn get_reads_base_and_records_read_only() {
    let mut st = Storage::with_recording_footprint(base());
    let e = st.get(&b"k1".to_vec()).unwrap();
    assert_eq!(e.data, b"v1".to_vec());
    assert!(st.get(&b"missing".to_vec()).is_none());
    let (ro, rw) = st.footprint();
    assert_eq!(ro.len(), 2);
    assert!(ro.contains(&b"k1".to_vec()));
    assert!(ro.contains(&b"missing".to_vec()));
    assert_eq!(rw.len(), 0);
}

#[test]
fn put_upgrades_to_read_write_and_reads_back() {
    let mut st = Storage::with_recording_footprint(base());
    let _ = st.get(&b"k1".to_vec());
    st.put(&b"k1".to_vec(), entry(b"v1b", 2));
    let e = st.get(&b"k1".to_vec()).unwrap();
    assert_eq!(e.data, b"v1b".to_vec());
    let (ro, rw) = st.footprint();
    assert_eq!(ro.len(), 0);
    assert_eq!(rw, vec![b"k1".to_vec()]);
}

#[test]
fn del_reads_as_absent() {
    let mut st = Storage::with_recording_footprint(base());
    st.del(&b"k2".to_vec());
    assert!(st.get(&b"k2".to_vec()).is_none());
}

#[test]
fn footprint_partition_is_disjoint_and_covers_touched() {
    let mut st = Storage::with_recording_footprint(base());
    let _ = st.get(&b"k1".to_vec());
    st.put(&b"k2".to_vec(), entry(b"v2b", 2));
    st.put(&b"k3".to_vec(), entry(b"v3", 2));
    let _ = st.get(&b"k3".to_vec());
    let (ro, rw) = st.footprint();
    // Disjoint: no key in both halves.
    for k in &ro {
        assert!(!rw.contains(k));
    }
    // Union covers exactly the touched keys, one record per key.
    assert_eq!(ro, vec![b"k1".to_vec()]);
    assert_eq!(rw, vec![b"k2".to_vec(), b"k3".to_vec()]);
}

#[test]
fn delta_holds_only_read_write_records() {
    let mut st = Storage::with_recording_footprint(base());
    let _ = st.get(&b"k1".to_vec());
    st.put(&b"k2".to_vec(), entry(b"v2b", 2));
    st.del(&b"k3".to_vec());
    let delta = st.delta();
    assert_eq!(delta.changes.len(), 2);
    assert_eq!(delta.changes[0].key, b"k2".to_vec());
    assert_eq!(delta.changes[0].val.as_ref().unwrap().data, b"v2b".to_vec());
    assert_eq!(delta.changes[1].key, b"k3".to_vec());
    assert!(delta.changes[1].val.is_none());
}
