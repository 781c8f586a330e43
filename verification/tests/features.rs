use axionvera::features::{FeatureError, FeaturesContract, MAX_FEATURES};
use axionvera::interfaces::Address;

fn addr(n: u128) -> Address {
    Address { high: 0, low: n }
}

fn setup() -> (FeaturesContract, Address) {
    (FeaturesContract::new(), addr(1))
}

fn feature_name() -> String {
    "multi_asset_v2".to_string()
}

#[test]
fn test_initialize_succeeds() {
    let (mut c, admin) = setup();
    c.initialize(admin).unwrap();
    assert_eq!(c.admin(), Ok(admin));
}

#[test]
fn test_initialize_is_one_time() {
    let (mut c, admin) = setup();
    c.initialize(admin).unwrap();
    assert_eq!(c.initialize(admin), Err(FeatureError::AlreadyInitialized));
}

#[test]
fn test_register_feature() {
    let (mut c, admin) = setup();
    c.initialize(admin).unwrap();
    let name = feature_name();
    c.register_feature(name.clone(), 0).unwrap();
    let f = c.get_feature(&name).unwrap();
    assert_eq!(f.name, name);
    assert!(!f.enabled);
    assert_eq!(f.rollout_pct, 0);
}

#[test]
fn test_double_register_fails() {
    let (mut c, admin) = setup();
    c.initialize(admin).unwrap();
    let name = feature_name();
    c.register_feature(name.clone(), 0).unwrap();
    assert_eq!(c.register_feature(name, 0), Err(FeatureError::FeatureAlreadyRegistered));
}

#[test]
fn test_enable_disable() {
    let (mut c, admin) = setup();
    c.initialize(admin).unwrap();
    let name = feature_name();
    c.register_feature(name.clone(), 0).unwrap();
    assert!(!c.is_enabled(&name).unwrap());

    c.enable_feature(&name, 10).unwrap();
    assert!(c.is_enabled(&name).unwrap());
    assert!(c.get_feature(&name).unwrap().enabled_at.is_some());

    c.disable_feature(&name).unwrap();
    assert!(!c.is_enabled(&name).unwrap());
}

#[test]
fn test_set_rollout() {
    let (mut c, admin) = setup();
    c.initialize(admin).unwrap();
    let name = feature_name();
    c.register_feature(name.clone(), 0).unwrap();
    c.set_rollout(&name, 50).unwrap();
    assert_eq!(c.get_feature(&name).unwrap().rollout_pct, 50);
}

#[test]
fn test_set_rollout_exceeds_max() {
    let (mut c, admin) = setup();
    c.initialize(admin).unwrap();
    let name = feature_name();
    c.register_feature(name.clone(), 0).unwrap();
    assert_eq!(c.set_rollout(&name, 101), Err(FeatureError::InvalidRolloutPct));
}

#[test]
fn test_feature_not_found() {
    let (mut c, admin) = setup();
    c.initialize(admin).unwrap();
    assert_eq!(c.get_feature(&feature_name()), Err(FeatureError::FeatureNotFound));
}

#[test]
fn test_list_features() {
    let (mut c, admin) = setup();
    c.initialize(admin).unwrap();
    let a = "feat_a".to_string();
    let b = "feat_b".to_string();
    c.register_feature(a, 0).unwrap();
    c.register_feature(b.clone(), 0).unwrap();
    c.enable_feature(&b, 5).unwrap();

    let list = c.list_features().unwrap();
    assert_eq!(list.len(), 2);
    assert!(!list[0].enabled);
    assert!(list[1].enabled);
}

#[test]
fn test_feature_limit() {
    let (mut c, admin) = setup();
    c.initialize(admin).unwrap();
    for i in 0..MAX_FEATURES {
        let bytes = [b'a' + (i % 26) as u8, b'a' + (i / 26) as u8];
        let name = std::str::from_utf8(&bytes).unwrap().to_string();
        c.register_feature(name, 0).unwrap();
    }
    assert_eq!(c.register_feature("overflow".to_string(), 0), Err(FeatureError::FeatureLimitReached));
}

#[test]
fn test_propose_and_accept_admin() {
    let (mut c, admin) = setup();
    c.initialize(admin).unwrap();
    let new_admin = addr(2);
    c.propose_new_admin(new_admin).unwrap();
    c.accept_admin(new_admin).unwrap();
    assert_eq!(c.admin(), Ok(new_admin));
}

#[test]
fn test_pause_blocks_writes() {
    let (mut c, admin) = setup();
    c.initialize(admin).unwrap();
    c.pause().unwrap();
    assert_eq!(c.register_feature(feature_name(), 0), Err(FeatureError::ContractPaused));
}

#[test]
fn test_unpause_restores_writes() {
    let (mut c, admin) = setup();
    c.initialize(admin).unwrap();
    c.pause().unwrap();
    c.unpause().unwrap();
    let name = feature_name();
    c.register_feature(name.clone(), 0).unwrap();
    assert_eq!(c.get_feature(&name).unwrap().name, name);
}

#[test]
fn test_getters_before_init_fail() {
    let (c, _) = setup();
    assert_eq!(c.admin(), Err(FeatureError::NotInitialized));
}

#[test]
fn accept_admin_by_another_account_is_refused() {
    let (mut c, admin) = setup();
    c.initialize(admin).unwrap();
    assert_eq!(c.accept_admin(addr(3)), Err(FeatureError::NoPendingAdmin));
    c.propose_new_admin(addr(2)).unwrap();
    assert_eq!(c.accept_admin(addr(3)), Err(FeatureError::Unauthorized));
    assert_eq!(c.admin(), Ok(admin));
}

#[test]
fn feature_error_codes() {
    assert_eq!(FeatureError::AlreadyInitialized.code(), 1);
    assert_eq!(FeatureError::ContractPaused.code(), 9);
}
