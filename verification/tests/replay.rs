use axionvera::interfaces::{Address, ReplayError, ReplayEventStatus};
use axionvera::replay::ReplayContract;

fn admin() -> Address {
    Address { high: 0, low: 1 }
}

#[test]
fn test_test_initialize_succeeds() {
    let mut c = ReplayContract::new();
    c.initialize(admin()).unwrap();
    assert_eq!(c.admin(), Ok(admin()));
}

#[test]
fn test_test_initialize_is_one_time() {
    let mut c = ReplayContract::new();
    c.initialize(admin()).unwrap();
    assert_eq!(c.initialize(admin()), Err(ReplayError::AlreadyInitialized));
}

#[test]
fn test_add_event_succeeds() {
    let mut c = ReplayContract::new();
    c.initialize(admin()).unwrap();

    let event_id = c
        .add_event("TestProtocol".to_string(), "TestAction".to_string(), 1234567890, Vec::new())
        .unwrap();
    assert_eq!(event_id, 1);

    let events = c.list_events().unwrap();
    assert_eq!(events.len(), 1);
    assert_eq!(events[0].id, 1);
}

#[test]
fn test_start_replay_succeeds() {
    let mut c = ReplayContract::new();
    c.initialize(admin()).unwrap();
    c.add_event("TestProtocol".to_string(), "TestAction".to_string(), 1, Vec::new()).unwrap();
    c.add_event("TestProtocol".to_string(), "TestAction".to_string(), 2, Vec::new()).unwrap();

    let report = c.start_replay(100).unwrap();
    assert_eq!(report.total_events, 2);
    assert_eq!(report.successful_events, 2);
    assert_eq!(report.failed_events, 0);
    assert!(report.success);
}

#[test]
fn replay_marks_events_and_stores_report() {
    let mut c = ReplayContract::new();
    c.initialize(admin()).unwrap();
    c.add_event("P".to_string(), "A".to_string(), 7, vec![1, 2]).unwrap();
    let report = c.start_replay(500).unwrap();
    assert_eq!(report.started_at, 500);
    assert_eq!(c.get_event(1).unwrap().status, ReplayEventStatus::Success);
    let stored = c.get_report(report.run_id).unwrap();
    assert_eq!(stored.total_events, 1);
    // a second run has nothing left to process
    let again = c.start_replay(600).unwrap();
    assert_eq!(again.total_events, 0);
}

#[test]
fn replay_before_initialize_is_refused() {
    let mut c = ReplayContract::new();
    assert_eq!(c.admin(), Err(ReplayError::NotInitialized));
    assert!(c.start_replay(1).is_err());
    assert!(c.add_event("P".to_string(), "A".to_string(), 1, Vec::new()).is_err());
}

#[test]
fn unknown_event_is_reported() {
    let mut c = ReplayContract::new();
    c.initialize(admin()).unwrap();
    assert!(c.get_event(9).is_err());
}

#[test]
fn report_read_back_by_run_id_is_the_latest_run() {
    let mut c = ReplayContract::new();
    c.initialize(admin()).unwrap();
    c.add_event("P".to_string(), "A".to_string(), 1, Vec::new()).unwrap();
    let first = c.start_replay(700).unwrap();
    assert_eq!(first.total_events, 1);
    c.add_event("P".to_string(), "A".to_string(), 2, Vec::new()).unwrap();
    c.add_event("P".to_string(), "A".to_string(), 3, Vec::new()).unwrap();
    let second = c.start_replay(700).unwrap();
    assert_eq!(second.run_id, first.run_id);
    let stored = c.get_report(second.run_id).unwrap();
    assert_eq!(stored.total_events, 2);
    assert_eq!(stored.skipped_events, 1);
}
