use axionvera::state::{ProtocolStates, RewardState, StakingState, TreasuryState, VaultState};
use axionvera::validator::{
    generate_report, rule_event_log_invariant, rule_resource_invariant, rule_reward_vault_consistency,
    rule_treasury_vault_consistency, rule_vault_reward_consistency, rule_vault_staking_consistency,
    rule_vault_treasury_consistency, validate_consistency_rules, ValidationStatus,
};

#[test]
fn vault_staking_consistency_active_ok() {
    let r = rule_vault_staking_consistency(VaultState::Active, StakingState::Active);
    assert_eq!(r.status, ValidationStatus::Passed);
}

#[test]
fn vault_staking_consistency_terminal_with_staking_fails() {
    let r = rule_vault_staking_consistency(VaultState::Terminated, StakingState::Active);
    assert_eq!(r.status, ValidationStatus::Failed);
}

#[test]
fn vault_staking_consistency_paused_uninitialized_ok() {
    let r = rule_vault_staking_consistency(VaultState::Paused, StakingState::Uninitialized);
    assert_eq!(r.status, ValidationStatus::Passed);
}

#[test]
fn vault_treasury_consistency_terminal_insolvent_ok() {
    let r = rule_vault_treasury_consistency(VaultState::Terminated, TreasuryState::Insolvent);
    assert_eq!(r.status, ValidationStatus::Passed);
}

#[test]
fn vault_treasury_consistency_terminal_emergency_ok() {
    let r = rule_vault_treasury_consistency(VaultState::Terminated, TreasuryState::EmergencyRestricted);
    assert_eq!(r.status, ValidationStatus::Passed);
}

#[test]
fn vault_treasury_consistency_terminal_normal_fails() {
    let r = rule_vault_treasury_consistency(VaultState::Terminated, TreasuryState::Normal);
    assert_eq!(r.status, ValidationStatus::Failed);
}

#[test]
fn reward_vault_consistency_accruing_active_ok() {
    let r = rule_reward_vault_consistency(VaultState::Active, RewardState::Accruing);
    assert_eq!(r.status, ValidationStatus::Passed);
}

#[test]
fn reward_vault_consistency_non_idle_uninitialized_fails() {
    let r = rule_reward_vault_consistency(VaultState::Uninitialized, RewardState::Accruing);
    assert_eq!(r.status, ValidationStatus::Failed);
}

#[test]
fn vault_reward_consistency_paused_distributing_warning() {
    let r = rule_vault_reward_consistency(VaultState::Paused, RewardState::Distributing);
    assert_eq!(r.status, ValidationStatus::Warning);
}

#[test]
fn vault_reward_consistency_paused_idle_ok() {
    let r = rule_vault_reward_consistency(VaultState::Paused, RewardState::Idle);
    assert_eq!(r.status, ValidationStatus::Passed);
}

#[test]
fn treasury_vault_consistency_emergency_locked_ok() {
    let r = rule_treasury_vault_consistency(VaultState::Locked, TreasuryState::EmergencyRestricted);
    assert_eq!(r.status, ValidationStatus::Passed);
}

#[test]
fn treasury_vault_consistency_emergency_active_fails() {
    let r = rule_treasury_vault_consistency(VaultState::Active, TreasuryState::EmergencyRestricted);
    assert_eq!(r.status, ValidationStatus::Failed);
}

#[test]
fn all_pure_rules_pass_on_default_states() {
    let results = validate_consistency_rules(
        VaultState::Uninitialized,
        StakingState::Uninitialized,
        RewardState::Idle,
        TreasuryState::Normal,
    );
    for r in &results {
        assert_eq!(r.status, ValidationStatus::Passed, "rule {:?} should pass on default states", r.name);
    }
}

#[test]
fn detect_mixed_inconsistencies() {
    let results = validate_consistency_rules(
        VaultState::Terminated,
        StakingState::Active,
        RewardState::Accruing,
        TreasuryState::Normal,
    );
    let fail = results.iter().filter(|r| r.status == ValidationStatus::Failed).count();
    assert!(fail >= 2, "should detect vault-terminated + staking-active + treasury-normal inconsistencies");
}

#[test]
fn storage_backed_rules_on_default_states() {
    let report = generate_report(1, 2, ProtocolStates::initial(), &vec![], true, 0);
    assert_eq!(report.overall, ValidationStatus::Passed);
    assert!(report.passed as usize >= report.rules.len() - report.warnings as usize);
}

#[test]
fn report_detects_inconsistencies() {
    let states = ProtocolStates {
        vault: VaultState::Terminated,
        staking: StakingState::Active,
        reward: RewardState::Accruing,
        treasury: TreasuryState::Normal,
    };
    let report = generate_report(1, 2, states, &vec![], true, 0);
    assert_eq!(report.overall, ValidationStatus::Failed);
    assert!(report.failed > 0);
}

#[test]
fn rule_names_are_present_in_report() {
    let states = ProtocolStates {
        vault: VaultState::Active,
        staking: StakingState::Active,
        reward: RewardState::Accruing,
        treasury: TreasuryState::Normal,
    };
    let report = generate_report(1, 2, states, &vec![true], true, 3);
    let expected = ["vault_stk", "vault_trs", "rwd_vault", "vault_rwd", "treas_vlt", "rsrc_inv", "acct_cons", "evt_log"];
    let mut found_count = 0u32;
    for e in expected.iter() {
        if report.rules.iter().any(|r| r.name == *e) {
            found_count += 1;
        }
    }
    assert_eq!(found_count, expected.len() as u32, "all 8 rule names must appear");
}

#[test]
fn warning_only_report_is_a_warning() {
    let states = ProtocolStates {
        vault: VaultState::Paused,
        staking: StakingState::Uninitialized,
        reward: RewardState::Distributing,
        treasury: TreasuryState::Normal,
    };
    let report = generate_report(5, 6, states, &vec![true, true], true, 200);
    assert_eq!(report.overall, ValidationStatus::Warning);
    assert_eq!(report.warnings, 1);
    assert_eq!(report.failed, 0);
    assert_eq!(report.passed, 7);
    assert_eq!(report.timestamp, 5);
    assert_eq!(report.ledger, 6);
}

#[test]
fn storage_rules_report_missing_resources_and_long_logs() {
    assert_eq!(rule_resource_invariant(&vec![true, false]).status, ValidationStatus::Failed);
    assert_eq!(rule_resource_invariant(&vec![true, true]).message, "ok");
    let long = rule_event_log_invariant(201);
    assert_eq!(long.status, ValidationStatus::Failed);
    assert_eq!(long.message, "fail");
    assert_eq!(long.name, "evt_log");
    assert_eq!(rule_vault_reward_consistency(VaultState::Paused, RewardState::Distributing).message, "warn");
}
