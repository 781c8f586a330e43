use axionvera::interfaces::{Address, Bytes32, ExecutionWindow, ScheduledTaskStatus, SchedulerError};
use axionvera::scheduler::{sort_tasks_by_priority, ScheduledTask, SchedulerContract};

fn admin() -> Address {
    Address { high: 0, low: 1 }
}

fn task(id: u128, name: &[u8], priority: u32, start: u64, end: u64) -> ScheduledTask {
    ScheduledTask {
        id: Bytes32 { high: 0, low: id },
        name: name.to_vec(),
        priority,
        window: ExecutionWindow { start_time: start, end_time: end, recurrence_interval: None, max_recurrences: None },
        target_contract: Address { high: 9, low: 9 },
        target_function: "test".to_string(),
        args: Vec::new(),
        dependencies: Vec::new(),
        status: ScheduledTaskStatus::Pending,
        execution_count: 0,
        created_at: 0,
        last_executed_at: None,
    }
}

#[test]
fn scheduler_initialize_succeeds() {
    let mut c = SchedulerContract::new();
    c.initialize(admin()).unwrap();
    assert_eq!(c.admin(), Ok(admin()));
    assert!(!c.is_paused());
}

#[test]
fn scheduler_initialize_is_one_time() {
    let mut c = SchedulerContract::new();
    c.initialize(admin()).unwrap();
    assert_eq!(c.initialize(admin()), Err(SchedulerError::AlreadyInitialized));
}

#[test]
fn test_schedule_task_succeeds() {
    let mut c = SchedulerContract::new();
    c.initialize(admin()).unwrap();
    c.schedule_task(task(1, b"Test Task", 100, 0, 1000)).unwrap();
    let retrieved = c.get_task(Bytes32 { high: 0, low: 1 }).unwrap();
    assert_eq!(retrieved.name, b"Test Task".to_vec());
}

#[test]
fn test_schedule_task_rejects_invalid_name() {
    let mut c = SchedulerContract::new();
    c.initialize(admin()).unwrap();
    assert_eq!(c.schedule_task(task(1, b"", 100, 0, 1000)), Err(SchedulerError::InvalidTaskName));
}

#[test]
fn duplicate_task_is_refused() {
    let mut c = SchedulerContract::new();
    c.initialize(admin()).unwrap();
    c.schedule_task(task(1, b"a", 1, 0, 10)).unwrap();
    assert_eq!(c.schedule_task(task(1, b"b", 1, 0, 10)), Err(SchedulerError::TaskAlreadyExists));
}

#[test]
fn cancel_task_then_get_shows_canceled() {
    let mut c = SchedulerContract::new();
    c.initialize(admin()).unwrap();
    c.schedule_task(task(1, b"a", 1, 0, 10)).unwrap();
    c.cancel_task(Bytes32 { high: 0, low: 1 }).unwrap();
    assert_eq!(c.get_task(Bytes32 { high: 0, low: 1 }).unwrap().status, ScheduledTaskStatus::Canceled);
    assert_eq!(c.cancel_task(Bytes32 { high: 0, low: 2 }), Err(SchedulerError::TaskNotFound));
}

#[test]
fn ready_tasks_come_by_priority_within_their_window() {
    let mut c = SchedulerContract::new();
    c.initialize(admin()).unwrap();
    c.schedule_task(task(1, b"low", 1, 0, 100)).unwrap();
    c.schedule_task(task(2, b"high", 5, 0, 100)).unwrap();
    c.schedule_task(task(3, b"late", 9, 500, 600)).unwrap();
    let ready = c.ready_tasks(50).unwrap();
    assert_eq!(ready.len(), 2);
    assert_eq!(ready[0].id, Bytes32 { high: 0, low: 2 });
    assert_eq!(ready[1].id, Bytes32 { high: 0, low: 1 });
}

#[test]
fn sort_keeps_equal_priorities_in_order() {
    let sorted = sort_tasks_by_priority(vec![task(1, b"a", 3, 0, 1), task(2, b"b", 7, 0, 1), task(3, b"c", 3, 0, 1)]);
    let ids: Vec<u128> = sorted.iter().map(|t| t.id.low).collect();
    assert_eq!(ids, vec![2, 1, 3]);
}

#[test]
fn paused_scheduler_refuses_new_tasks() {
    let mut c = SchedulerContract::new();
    c.initialize(admin()).unwrap();
    c.pause_contract().unwrap();
    assert!(c.is_paused());
    assert_eq!(c.schedule_task(task(1, b"a", 1, 0, 10)), Err(SchedulerError::ContractPaused));
    c.unpause_contract().unwrap();
    assert!(c.schedule_task(task(1, b"a", 1, 0, 10)).is_ok());
}

#[test]
fn execution_round_runs_ready_tasks_by_priority_and_returns_successes() {
    let mut c = SchedulerContract::new();
    c.initialize(admin()).unwrap();
    c.schedule_task(task(1, b"low", 1, 0, 100)).unwrap();
    c.schedule_task(task(2, b"high", 5, 0, 100)).unwrap();
    c.schedule_task(task(3, b"late", 9, 500, 600)).unwrap();
    let mut round = c.execute_ready_tasks(50).unwrap();

    let first = c.next_task(&mut round).unwrap();
    assert_eq!(first.id, Bytes32 { high: 0, low: 2 });
    assert_eq!(first.status, ScheduledTaskStatus::Executing);
    assert_eq!(c.get_task(Bytes32 { high: 0, low: 2 }).unwrap().status, ScheduledTaskStatus::Executing);
    c.record_outcome(&mut round, true);

    let second = c.next_task(&mut round).unwrap();
    assert_eq!(second.id, Bytes32 { high: 0, low: 1 });
    c.record_outcome(&mut round, false);

    assert!(c.next_task(&mut round).is_none());
    assert_eq!(round.finish(), vec![Bytes32 { high: 0, low: 2 }]);

    let high = c.get_task(Bytes32 { high: 0, low: 2 }).unwrap();
    assert_eq!(high.status, ScheduledTaskStatus::Success);
    assert_eq!(high.execution_count, 1);
    assert_eq!(high.last_executed_at, Some(50));
    let low = c.get_task(Bytes32 { high: 0, low: 1 }).unwrap();
    assert_eq!(low.status, ScheduledTaskStatus::Failed);
    assert_eq!(low.execution_count, 1);
    let late = c.get_task(Bytes32 { high: 0, low: 3 }).unwrap();
    assert_eq!(late.status, ScheduledTaskStatus::Pending);
    assert_eq!(late.execution_count, 0);
    assert_eq!(late.last_executed_at, None);
}

#[test]
fn recurring_task_stays_pending_after_success() {
    let mut c = SchedulerContract::new();
    c.initialize(admin()).unwrap();
    let mut t = task(1, b"tick", 1, 0, 100);
    t.window.recurrence_interval = Some(10);
    t.window.max_recurrences = Some(3);
    c.schedule_task(t).unwrap();
    let mut round = c.execute_ready_tasks(5).unwrap();
    assert!(c.next_task(&mut round).is_some());
    c.record_outcome(&mut round, true);
    assert!(c.next_task(&mut round).is_none());
    assert_eq!(round.finish(), vec![Bytes32 { high: 0, low: 1 }]);
    let stored = c.get_task(Bytes32 { high: 0, low: 1 }).unwrap();
    assert_eq!(stored.status, ScheduledTaskStatus::Pending);
    assert_eq!(stored.execution_count, 1);
}

#[test]
fn execution_round_is_refused_when_paused_or_uninitialized() {
    let mut c = SchedulerContract::new();
    assert!(matches!(c.execute_ready_tasks(1), Err(SchedulerError::NotInitialized)));
    c.initialize(admin()).unwrap();
    c.pause_contract().unwrap();
    assert!(matches!(c.execute_ready_tasks(1), Err(SchedulerError::ContractPaused)));
}
