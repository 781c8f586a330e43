use axionvera::events_index::{EventIndex, MAX_EVENTS_PER_USER, MAX_GLOBAL_EVENTS};
use axionvera::interfaces::{Address, LedgerInfo};

fn addr(n: u128) -> Address {
    Address { high: 0, low: n }
}

#[test]
fn events_are_logged_globally_and_per_user() {
    let mut idx = EventIndex::new();
    idx.index_event("deposit".to_string(), Some(addr(1)), None, 100, LedgerInfo { timestamp: 5, sequence: 6 });
    idx.index_event("distrib".to_string(), None, Some(addr(9)), 7, LedgerInfo { timestamp: 8, sequence: 9 });
    let global = idx.get_global_event_log();
    assert_eq!(global.len(), 2);
    assert_eq!(global[0].action, "deposit");
    assert_eq!(global[0].timestamp, 5);
    assert_eq!(global[1].asset, Some(addr(9)));
    let user = idx.get_user_event_log(addr(1));
    assert_eq!(user.len(), 1);
    assert_eq!(user[0].amount, 100);
    assert!(idx.get_user_event_log(addr(2)).is_empty());
}

#[test]
fn logs_keep_only_the_newest_entries() {
    let mut idx = EventIndex::new();
    for i in 0..(MAX_GLOBAL_EVENTS as i128 + 5) {
        idx.index_event("e".to_string(), Some(addr(1)), None, i, LedgerInfo { timestamp: i as u64, sequence: 0 });
    }
    let global = idx.get_global_event_log();
    assert_eq!(global.len(), MAX_GLOBAL_EVENTS);
    assert_eq!(global[0].amount, 5);
    assert_eq!(global[MAX_GLOBAL_EVENTS - 1].amount, MAX_GLOBAL_EVENTS as i128 + 4);
    let user = idx.get_user_event_log(addr(1));
    assert_eq!(user.len(), MAX_EVENTS_PER_USER);
    assert_eq!(user[MAX_EVENTS_PER_USER - 1].amount, MAX_GLOBAL_EVENTS as i128 + 4);
}

#[test]
fn interacting_users_are_listed_once() {
    let mut idx = EventIndex::new();
    idx.record_interacting_user(addr(1));
    idx.record_interacting_user(addr(2));
    idx.record_interacting_user(addr(1));
    assert_eq!(idx.get_interacting_users(), vec![addr(1), addr(2)]);
}
