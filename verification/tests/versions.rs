use axionvera::features::FeaturesContract;
use axionvera::replay::ReplayContract;
use axionvera::scheduler::SchedulerContract;
use axionvera::vault::contract::VaultContract;
use axionvera::fees::FeeContract;

#[test]
fn test_version() {
    assert_eq!(FeaturesContract::version(), 1);
}

#[test]
fn test_version_is_one() {
    assert_eq!(SchedulerContract::version(), 1);
}

#[test]
fn test_test_version_is_one() {
    assert_eq!(ReplayContract::version(), 1);
}

#[test]
fn vault_and_fee_versions_are_one() {
    assert_eq!(VaultContract::version(), 1);
    assert_eq!(FeeContract::version(), 1);
}
