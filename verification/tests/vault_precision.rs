use axionvera::vault::math::{
    checked_accrued_rewards, checked_reward_index_increment, VaultError, PRECISION_FACTOR,
};

#[test]
fn increment_basic() {
    let inc = checked_reward_index_increment(400, 400).unwrap();
    assert_eq!(inc, PRECISION_FACTOR);
}

#[test]
fn increment_small_reward_large_deposits_retains_precision() {
    let inc = checked_reward_index_increment(1, 1_000_000).unwrap();
    assert!(inc > 0, "precision lost: increment rounded to zero");
    assert_eq!(inc, PRECISION_FACTOR / 1_000_000);
}

#[test]
fn increment_rejects_zero_deposits() {
    assert_eq!(checked_reward_index_increment(100, 0), Err(VaultError::NoDeposits));
}

#[test]
fn increment_rejects_negative_deposits() {
    assert_eq!(checked_reward_index_increment(100, -1), Err(VaultError::NoDeposits));
}

#[test]
fn accrued_proportional_equal_deposits() {
    let delta = checked_reward_index_increment(400, 200).unwrap();
    let reward = checked_accrued_rewards(100, delta).unwrap();
    assert_eq!(reward, 200);
}

#[test]
fn accrued_vastly_different_deposits_user_a_tiny() {
    let total = 1_000_001_i128;
    let rewards = 1_000_001_i128;
    let delta = checked_reward_index_increment(rewards, total).unwrap();

    let reward_a = checked_accrued_rewards(1, delta).unwrap();
    assert_eq!(reward_a, 1);

    let reward_b = checked_accrued_rewards(1_000_000, delta).unwrap();
    assert_eq!(reward_b, 1_000_000);
}

#[test]
fn accrued_zero_balance_returns_zero() {
    let delta = checked_reward_index_increment(1000, 500).unwrap();
    assert_eq!(checked_accrued_rewards(0, delta).unwrap(), 0);
}

#[test]
fn accrued_zero_delta_returns_zero() {
    assert_eq!(checked_accrued_rewards(1_000_000, 0).unwrap(), 0);
}

#[test]
fn precision_factor_value() {
    assert_eq!(PRECISION_FACTOR, 1_000_000_000);
}

#[test]
fn round_trip_proportionality() {
    let total = 1_000_000_i128;
    let rewards = 1_000_000_i128;
    let delta = checked_reward_index_increment(rewards, total).unwrap();

    assert_eq!(checked_accrued_rewards(1, delta).unwrap(), 1);
    assert_eq!(checked_accrued_rewards(999_999, delta).unwrap(), 999_999);
}

#[test]
fn increment_overflow_is_reported() {
    assert_eq!(checked_reward_index_increment(i128::MAX, 1), Err(VaultError::MathOverflow));
}

#[test]
fn accrued_overflow_is_reported() {
    assert_eq!(checked_accrued_rewards(i128::MAX, 2), Err(VaultError::MathOverflow));
}

#[test]
fn pro_rata_share_never_exceeds_reward() {
    // 3 holders of 1, 1 and 1 out of 3 share a reward of 10: each gets 3, never more than 10/3.
    let delta = checked_reward_index_increment(10, 3).unwrap();
    let each = checked_accrued_rewards(1, delta).unwrap();
    assert_eq!(each, 3);
    assert!(each * 3 <= 10);
}
