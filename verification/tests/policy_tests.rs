use inspektor::errors::PolicyError;
use inspektor::policy::{gate, GateDecision, PolicySnapshot, SnapshotStore, Verdict};

#[test]
fn allow_forwards() {
    assert_eq!(gate(&Verdict::Allow), GateDecision::Forward);
}

#[test]
fn deny_blocks_without_fault() {
    let d = gate(&Verdict::Deny("writes are not allowed".to_string()));
    assert_eq!(d, GateDecision::Block { fault: false });
}

#[test]
fn engine_errors_fail_closed_but_distinctly() {
    assert_eq!(gate(&Verdict::Error(PolicyError::SandboxFault)), GateDecision::Block {
        fault: true
    });
    assert_eq!(gate(&Verdict::Error(PolicyError::EvaluationTimeout)), GateDecision::Block {
        fault: true
    });
}

#[test]
fn snapshot_carries_its_fields() {
    let s = PolicySnapshot::new(7, "orders".to_string(), vec![1, 2, 3]);
    assert_eq!(s.version(), 7);
    assert_eq!(s.data_source_name(), "orders");
    assert_eq!(s.wasm_byte_code(), &[1, 2, 3]);
}

#[test]
fn store_replaces_snapshot_wholesale() {
    let mut store = SnapshotStore::new(PolicySnapshot::new(1, "orders".to_string(), vec![1]));
    assert!(store.replace(vec![9, 9]));
    let s = store.current();
    assert_eq!(s.version(), 2);
    assert_eq!(s.data_source_name(), "orders");
    assert_eq!(s.wasm_byte_code(), &[9, 9]);
}

#[test]
fn store_version_grows_with_each_update() {
    let mut store = SnapshotStore::new(PolicySnapshot::new(0, "db".to_string(), vec![]));
    for expected in 1..5u64 {
        assert!(store.replace(vec![expected as u8]));
        assert_eq!(store.current().version(), expected);
    }
}

#[test]
fn store_refuses_version_overflow() {
    let mut store = SnapshotStore::new(PolicySnapshot::new(u64::MAX, "db".to_string(), vec![1]));
    assert!(!store.replace(vec![2]));
    assert_eq!(store.current().version(), u64::MAX);
    assert_eq!(store.current().wasm_byte_code(), &[1]);
}
