use axionvera::lifecycle::{ContractLifecycle, LifecycleState};

#[test]
fn test_valid_lifecycle_flow() {
    let mut lifecycle = ContractLifecycle::new("admin_user".to_string());
    assert_eq!(lifecycle.current_state, LifecycleState::Deployed);
    assert!(lifecycle.transition_to("admin_user", LifecycleState::Initialized).is_ok());
    assert!(lifecycle.transition_to("admin_user", LifecycleState::Active).is_ok());
}

#[test]
fn test_invalid_transition_rejected() {
    let mut lifecycle = ContractLifecycle::new("admin_user".to_string());
    assert!(lifecycle.transition_to("admin_user", LifecycleState::Active).is_err());
}

#[test]
fn test_unauthorized_admin_control() {
    let mut lifecycle = ContractLifecycle::new("admin_user".to_string());
    assert!(lifecycle.transition_to("attacker", LifecycleState::Initialized).is_err());
}

#[test]
fn retired_contract_stays_retired() {
    let mut l = ContractLifecycle::new("a".to_string());
    for s in [LifecycleState::Initialized, LifecycleState::Active, LifecycleState::Deprecated, LifecycleState::Retired] {
        l.transition_to("a", s).unwrap();
    }
    for s in [
        LifecycleState::Deployed,
        LifecycleState::Initialized,
        LifecycleState::Active,
        LifecycleState::Maintenance,
        LifecycleState::Deprecated,
        LifecycleState::Retired,
    ] {
        assert!(l.transition_to("a", s).is_err());
    }
    assert_eq!(l.current_state, LifecycleState::Retired);
}

#[test]
fn maintenance_round_trip() {
    let mut l = ContractLifecycle::new("a".to_string());
    l.transition_to("a", LifecycleState::Initialized).unwrap();
    l.transition_to("a", LifecycleState::Active).unwrap();
    l.transition_to("a", LifecycleState::Maintenance).unwrap();
    l.transition_to("a", LifecycleState::Active).unwrap();
    assert_eq!(l.current_state, LifecycleState::Active);
    assert_eq!(
        l.transition_to("b", LifecycleState::Maintenance),
        Err("Unauthorized: Only administrative controls work")
    );
    assert_eq!(l.transition_to("a", LifecycleState::Initialized), Err("Invalid state transition rejected"));
}
