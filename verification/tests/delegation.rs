use axionvera::delegation::{DelegationError, DelegationManager};
use axionvera::interfaces::Address;

fn addr(n: u128) -> Address {
    Address { high: 0, low: n }
}

#[test]
fn grant_authorizes_until_expiration() {
    let mut m = DelegationManager::new();
    let op = "withdraw".to_string();
    m.delegate(addr(1), addr(2), op.clone(), 100, 10).unwrap();
    assert!(m.is_authorized(addr(1), addr(2), &op, 10));
    assert!(m.is_authorized(addr(1), addr(2), &op, 100));
    assert!(!m.is_authorized(addr(1), addr(2), &op, 101));
    assert!(!m.is_authorized(addr(2), addr(1), &op, 10));
    assert!(!m.is_authorized(addr(1), addr(2), &"deposit".to_string(), 10));
    let rule = m.get_delegation(addr(1), addr(2), &op).unwrap();
    assert_eq!(rule.expiration, 100);
    assert_eq!(rule.operation, op);
}

#[test]
fn expired_grant_is_refused() {
    let mut m = DelegationManager::new();
    assert_eq!(m.delegate(addr(1), addr(2), "x".to_string(), 10, 10), Err(DelegationError::InvalidExpiration));
    assert!(m.get_delegation(addr(1), addr(2), &"x".to_string()).is_none());
}

#[test]
fn revoke_removes_the_grant() {
    let mut m = DelegationManager::new();
    let op = "claim".to_string();
    m.delegate(addr(1), addr(2), op.clone(), 50, 1).unwrap();
    m.delegate(addr(1), addr(3), op.clone(), 50, 1).unwrap();
    m.revoke_delegation(addr(1), addr(2), &op).unwrap();
    assert!(!m.is_authorized(addr(1), addr(2), &op, 5));
    assert!(m.is_authorized(addr(1), addr(3), &op, 5));
    assert_eq!(m.revoke_delegation(addr(1), addr(2), &op), Err(DelegationError::DelegationNotFound));
}

#[test]
fn regrant_replaces_expiration() {
    let mut m = DelegationManager::new();
    let op = "lock".to_string();
    m.delegate(addr(1), addr(2), op.clone(), 50, 1).unwrap();
    m.delegate(addr(1), addr(2), op.clone(), 500, 1).unwrap();
    assert_eq!(m.get_delegation(addr(1), addr(2), &op).unwrap().expiration, 500);
    assert!(m.is_authorized(addr(1), addr(2), &op, 400));
}
