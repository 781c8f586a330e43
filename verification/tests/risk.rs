use axionvera::interfaces::Address;
use axionvera::risk::{RiskError, RiskManagement, RiskParameters};

fn params() -> RiskParameters {
    RiskParameters { max_deposit_amount: 1000, min_deposit_amount: 10, max_withdrawal_amount: 500, global_cap: 5000 }
}

fn admin() -> Address {
    Address { high: 0, low: 1 }
}

#[test]
fn test_initialize() {
    let mut r = RiskManagement::new();
    r.initialize_risk(admin(), params());
    assert_eq!(r.get_risk_params(), params());
}

#[test]
fn test_check_deposit() {
    let mut r = RiskManagement::new();
    r.initialize_risk(admin(), params());
    assert!(r.check_deposit(50).is_ok());
    assert_eq!(r.check_deposit(5), Err(RiskError::TooSmall));
    assert_eq!(r.check_deposit(1500), Err(RiskError::TooLarge));
    r.update_total_deposits(4900);
    assert_eq!(r.check_deposit(150), Err(RiskError::CapReached));
}

#[test]
fn test_check_withdrawal() {
    let mut r = RiskManagement::new();
    r.initialize_risk(admin(), params());
    assert!(r.check_withdrawal(100).is_ok());
    assert_eq!(r.check_withdrawal(600), Err(RiskError::TooLarge));
}

#[test]
fn zero_limits_are_off() {
    let mut r = RiskManagement::new();
    r.initialize_risk(
        admin(),
        RiskParameters { max_deposit_amount: 0, min_deposit_amount: 0, max_withdrawal_amount: 0, global_cap: 0 },
    );
    assert!(r.check_deposit(1_000_000_000).is_ok());
    assert!(r.check_withdrawal(1_000_000_000).is_ok());
}

#[test]
fn deposit_reaching_the_cap_exactly_is_accepted() {
    let mut r = RiskManagement::new();
    r.initialize_risk(admin(), params());
    r.update_total_deposits(4000);
    assert!(r.check_deposit(1000).is_ok());
}
