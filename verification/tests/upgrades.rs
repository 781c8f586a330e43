use axionvera::upgrades::compat::{
    CompatStatus, CompatibilityResult, MigrationPhase, StorageKeySpec, StorageScope,
};
use axionvera::upgrades::report::CompatibilityReport;
use axionvera::upgrades::validator::UpgradeValidator;

#[test]
fn removed_required_storage_key_blocks_upgrade() {
    let old = [StorageKeySpec::new("Admin", StorageScope::Instance, "Address", true)];
    let new: [StorageKeySpec; 0] = [];
    let mut result = CompatibilityResult::new("v1", "v2");

    UpgradeValidator::validate_storage_layout(&mut result, &old, &new);

    assert!(!result.is_fully_compatible);
    assert_eq!(result.breaking_count(), 1);
}

#[test]
fn additive_storage_key_is_warning_not_blocking() {
    let old = [StorageKeySpec::new("Admin", StorageScope::Instance, "Address", true)];
    let new = [
        StorageKeySpec::new("Admin", StorageScope::Instance, "Address", true),
        StorageKeySpec::new("UpgradeNonce", StorageScope::Instance, "u64", false),
    ];
    let mut result = CompatibilityResult::new("v1", "v2");

    UpgradeValidator::validate_storage_layout(&mut result, &old, &new);

    assert!(result.is_fully_compatible);
    assert_eq!(result.warning_count(), 1);
}

#[test]
fn storage_scope_change_blocks_upgrade() {
    let old = [StorageKeySpec::new("UserBalance", StorageScope::Persistent, "i128", true)];
    let new = [StorageKeySpec::new("UserBalance", StorageScope::Instance, "i128", true)];
    let mut result = CompatibilityResult::new("v1", "v2");

    UpgradeValidator::validate_storage_layout(&mut result, &old, &new);

    assert!(matches!(result.storage[0].status, CompatStatus::Breaking(_)));
}

#[test]
fn missing_stored_admin_authorization_blocks_upgrade() {
    let mut result = CompatibilityResult::new("v1", "v2");

    UpgradeValidator::validate_authorization_rules(
        &mut result,
        &["require_auth"],
        &["require_auth", "stored_admin_match"],
    );

    assert!(!result.is_fully_compatible);
    assert_eq!(result.breaking_count(), 1);
}

#[test]
fn standard_workflow_records_validation_and_verification() {
    let mut result = CompatibilityResult::new("v1", "v2");

    UpgradeValidator::attach_standard_migration_workflow(&mut result);

    assert_eq!(result.migration.len(), 5);
    assert_eq!(result.migration[1].phase, MigrationPhase::Validated);
    assert_eq!(result.migration[4].phase, MigrationPhase::Verified);
}

#[test]
fn report_includes_warning_and_migration_counts() {
    let mut result = CompatibilityResult::new("abc", "def");
    UpgradeValidator::validate_events(&mut result, &["deposit"], &["deposit", "upgrade"]);
    UpgradeValidator::attach_standard_migration_workflow(&mut result);
    let report = CompatibilityReport::new(result);
    let summary = report.summary();

    assert!(summary.contains("COMPATIBLE"));
    assert!(summary.contains("Warnings: 1"));
    assert!(summary.contains("Migration steps: 5"));
}

#[test]
fn removed_event_is_breaking_and_added_one_a_warning() {
    let mut result = CompatibilityResult::new("v1", "v2");
    UpgradeValidator::validate_events(&mut result, &["deposit", "withdraw"], &["deposit", "claim"]);
    assert_eq!(result.events.len(), 3);
    assert!(!result.is_fully_compatible);
    assert_eq!(result.breaking_count(), 1);
    assert_eq!(result.warning_count(), 1);
}

#[test]
fn removed_interface_blocks_upgrade() {
    let mut result = CompatibilityResult::new("v1", "v2");
    UpgradeValidator::validate_interfaces(&mut result, &["deposit", "withdraw"], &["deposit"]);
    assert!(!result.is_fully_compatible);
    assert_eq!(result.breaking_count(), 1);
    assert_eq!(result.warning_count(), 0);
}

#[test]
fn unchanged_storage_keys_are_compatible() {
    let mut result = CompatibilityResult::new("v1", "v2");
    UpgradeValidator::validate_storage_keys(&mut result, &["Admin", "Total"], &["Admin", "Total"]);
    assert!(result.is_fully_compatible);
    assert_eq!(result.storage.len(), 2);
    assert_eq!(result.breaking_count(), 0);
    assert_eq!(result.warning_count(), 0);
}

#[test]
fn storage_type_change_blocks_upgrade() {
    let old = [StorageKeySpec::new("Total", StorageScope::Instance, "i128", true)];
    let new = [StorageKeySpec::new("Total", StorageScope::Instance, "u64", true)];
    let mut result = CompatibilityResult::new("v1", "v2");
    UpgradeValidator::validate_storage_layout(&mut result, &old, &new);
    assert!(!result.is_fully_compatible);
    assert!(matches!(result.storage[0].status, CompatStatus::Breaking(_)));
}

#[test]
fn breaking_report_says_so() {
    let mut result = CompatibilityResult::new("abc", "def");
    UpgradeValidator::validate_interfaces(&mut result, &["deposit"], &[]);
    let report = CompatibilityReport::new(result);
    let summary = report.summary();
    assert!(summary.contains("Result: BLOCKED (1 breaking checks)"));
    assert!(summary.contains("Warnings: 0"));
    assert!(summary.contains("V1: abc"));
}

#[test]
fn verdict_follows_breaking_count_and_never_recovers() {
    let mut result = CompatibilityResult::new("v1", "v2");
    assert!(result.is_fully_compatible);
    assert_eq!(result.breaking_count(), 0);
    result.add_event("Deposit", CompatStatus::Warning("new event".to_string()));
    assert!(result.is_fully_compatible);
    assert_eq!(result.breaking_count(), 0);
    result.add_interface("withdraw", CompatStatus::Breaking("removed".to_string()));
    assert!(!result.is_fully_compatible);
    assert_eq!(result.breaking_count(), 1);
    result.add_storage("Admin", CompatStatus::Compatible);
    UpgradeValidator::attach_standard_migration_workflow(&mut result);
    assert!(!result.is_fully_compatible);
    assert_eq!(result.breaking_count(), 1);
}
