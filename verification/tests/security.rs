use axionvera::interfaces::Address;
use axionvera::security::{EmergencyPause, MatchAddress, PolicyViolation, PredicatePolicy};

fn addr(n: u128) -> Address {
    Address { high: 0, low: n }
}

#[test]
fn test_pause_unpause_flow() {
    let admin = addr(1);
    let mut s = EmergencyPause::new();
    s.init(admin);
    assert!(!s.is_paused());
    s.pause(admin);
    assert!(s.is_paused());
    s.unpause(admin);
    assert!(!s.is_paused());
    assert_eq!(s.admin(), admin);
}

struct Request {
    caller: Address,
    owner: Address,
    amount: i128,
}

#[test]
fn match_address_policy_compares_the_two_addresses() {
    let violation = PolicyViolation { code: 7 };
    let policy = MatchAddress::new(|r: &Request| r.caller, |r: &Request| r.owner, violation);
    let ok = Request { caller: addr(1), owner: addr(1), amount: 0 };
    let bad = Request { caller: addr(1), owner: addr(2), amount: 0 };
    assert_eq!(policy.enforce(&ok), Ok(()));
    assert_eq!(policy.enforce(&bad), Err(violation));
}

#[test]
fn predicate_policy_applies_its_test() {
    let violation = PolicyViolation { code: 3 };
    let policy = PredicatePolicy::new(|r: &Request| r.amount > 0, violation);
    assert_eq!(policy.enforce(&Request { caller: addr(1), owner: addr(1), amount: 5 }), Ok(()));
    assert_eq!(policy.enforce(&Request { caller: addr(1), owner: addr(1), amount: 0 }), Err(violation));
}
