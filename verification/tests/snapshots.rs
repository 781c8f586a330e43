use axionvera::interfaces::LedgerInfo;
use axionvera::snapshots::{SnapshotError, SnapshotStore, MIN_SNAPSHOT_INTERVAL};
use axionvera::state::{ProtocolStates, VaultState};

fn at(timestamp: u64) -> LedgerInfo {
    LedgerInfo { timestamp, sequence: 7 }
}

#[test]
fn test_take_snapshot_basic() {
    let mut store = SnapshotStore::new();
    let snapshot = store.take_snapshot(at(MIN_SNAPSHOT_INTERVAL), ProtocolStates::initial()).unwrap();
    assert_eq!(snapshot.metadata.id, 1);
    assert_eq!(snapshot.metadata.timestamp, MIN_SNAPSHOT_INTERVAL);
    assert_eq!(snapshot.vault_state, VaultState::Uninitialized);
    let latest = store.get_latest_snapshot().unwrap();
    assert_eq!(latest, snapshot);
}

#[test]
fn test_snapshot_interval_enforcement() {
    let mut store = SnapshotStore::new();
    store.take_snapshot(at(MIN_SNAPSHOT_INTERVAL), ProtocolStates::initial()).unwrap();
    let result = store.take_snapshot(at(MIN_SNAPSHOT_INTERVAL + 1), ProtocolStates::initial());
    assert!(result.is_err());
    let result = store.take_snapshot(at(MIN_SNAPSHOT_INTERVAL * 2), ProtocolStates::initial());
    assert!(result.is_ok());
}

#[test]
fn test_snapshot_history() {
    let mut store = SnapshotStore::new();
    for i in 1..=5 {
        store.take_snapshot(at(MIN_SNAPSHOT_INTERVAL * i), ProtocolStates::initial()).unwrap();
    }
    let history = store.get_snapshot_history(3);
    assert_eq!(history.len(), 3);
    assert_eq!(history[0].metadata.id, 5);
    assert_eq!(history[2].metadata.id, 3);
}

#[test]
fn early_first_snapshot_is_refused() {
    let mut store = SnapshotStore::new();
    assert_eq!(store.take_snapshot(at(MIN_SNAPSHOT_INTERVAL - 1), ProtocolStates::initial()), Err(SnapshotError::IntervalNotMet));
    assert_eq!(SnapshotError::IntervalNotMet.code(), 1);
    assert!(store.get_latest_snapshot().is_none());
}

#[test]
fn snapshots_are_found_by_id() {
    let mut store = SnapshotStore::new();
    store.take_snapshot(at(4000), ProtocolStates::initial()).unwrap();
    store.take_snapshot(at(8000), ProtocolStates::initial()).unwrap();
    assert_eq!(store.get_snapshot(2).unwrap().metadata.timestamp, 8000);
    assert!(store.get_snapshot(0).is_none());
    assert!(store.get_snapshot(3).is_none());
    assert_eq!(store.get_snapshot_history(10).len(), 2);
}
