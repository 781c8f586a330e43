use axionvera::interfaces::{Address, FeeConfig, FeeType};
use axionvera::risk::RiskParameters;
use axionvera::vault::contract::{
    Transfer, VaultContract, DELEGATE_PERM_DEPOSIT, DELEGATE_PERM_WITHDRAW, PERMISSION_CLAIM, PERMISSION_DEPOSIT,
    PERMISSION_WITHDRAW,
};
use axionvera::vault::math::VaultError;

fn addr(n: u128) -> Address {
    Address { high: 0, low: n }
}

const CONTRACT: u128 = 100;
const ADMIN: u128 = 1;
const DEPOSIT_TOKEN: u128 = 50;
const REWARD_TOKEN: u128 = 51;
const ALICE: u128 = 2;
const BOB: u128 = 3;

fn vault() -> VaultContract {
    let mut v = VaultContract::new(addr(CONTRACT));
    v.initialize(addr(ADMIN), addr(DEPOSIT_TOKEN), addr(REWARD_TOKEN), 0).unwrap();
    v
}

#[test]
fn deposit_then_withdraw_moves_tokens_both_ways() {
    let mut v = vault();
    let s = v.deposit(addr(ALICE), 1_000, 10).unwrap();
    assert_eq!(s.amount, 1_000);
    assert_eq!(
        s.transfers,
        vec![Transfer { token: addr(DEPOSIT_TOKEN), from: addr(ALICE), to: addr(CONTRACT), amount: 1_000 }]
    );
    assert_eq!(v.balance(addr(ALICE)), Ok(1_000));
    assert_eq!(v.total_deposits(), Ok(1_000));

    let s = v.withdraw(addr(ALICE), 400).unwrap();
    assert_eq!(
        s.transfers,
        vec![Transfer { token: addr(DEPOSIT_TOKEN), from: addr(CONTRACT), to: addr(ALICE), amount: 400 }]
    );
    assert_eq!(v.balance(addr(ALICE)), Ok(600));
    assert_eq!(v.total_deposits(), Ok(600));
    assert_eq!(v.withdraw(addr(ALICE), 601).err(), Some(VaultError::InsufficientBalance));
    assert_eq!(v.balance(addr(ALICE)), Ok(600));
}

#[test]
fn deposit_then_withdraw_restores_the_balance() {
    let mut v = vault();
    v.deposit(addr(ALICE), 250, 1).unwrap();
    let before = v.balance(addr(ALICE)).unwrap();
    v.deposit(addr(ALICE), 777, 2).unwrap();
    v.withdraw(addr(ALICE), 777).unwrap();
    assert_eq!(v.balance(addr(ALICE)), Ok(before));
    assert_eq!(v.total_deposits(), Ok(250));
}

#[test]
fn deposit_fee_goes_to_the_treasury() {
    let mut v = vault();
    let treasury = addr(9);
    v.set_fee_config(Some(FeeConfig { treasury, deposit_fee_bps: 100, withdrawal_fee_bps: 0, reward_fee_bps: 0 }));
    let s = v.deposit(addr(ALICE), 10_000, 5).unwrap();
    assert_eq!(s.amount, 9_900);
    assert_eq!(
        s.transfers,
        vec![
            Transfer { token: addr(DEPOSIT_TOKEN), from: addr(ALICE), to: addr(CONTRACT), amount: 10_000 },
            Transfer { token: addr(DEPOSIT_TOKEN), from: addr(CONTRACT), to: treasury, amount: 100 },
        ]
    );
    assert_eq!(v.balance(addr(ALICE)), Ok(9_900));
    let totals = v.fee_ledger.get_fee_totals(FeeType::Deposit);
    assert_eq!(totals.operation_count, 1);
    assert_eq!(totals.collected_amount, 100);
}

#[test]
fn invalid_amounts_and_states_are_refused() {
    let mut fresh = VaultContract::new(addr(CONTRACT));
    assert_eq!(fresh.deposit(addr(ALICE), 10, 0).err(), Some(VaultError::NotInitialized));
    let mut v = vault();
    assert_eq!(v.deposit(addr(ALICE), 0, 0).err(), Some(VaultError::InvalidAmount));
    assert_eq!(v.deposit(addr(ALICE), -5, 0).err(), Some(VaultError::NegativeAmount));
    v.pause_contract().unwrap();
    assert_eq!(v.deposit(addr(ALICE), 10, 0).err(), Some(VaultError::Paused));
    v.unpause_contract().unwrap();
    assert!(v.deposit(addr(ALICE), 10, 0).is_ok());
    assert_eq!(v.initialize(addr(ADMIN), addr(5), addr(6), 0), Err(VaultError::AlreadyInitialized));
}

#[test]
fn same_deposit_and_reward_token_is_refused() {
    let mut v = VaultContract::new(addr(CONTRACT));
    assert_eq!(v.initialize(addr(ADMIN), addr(5), addr(5), 0), Err(VaultError::InvalidTokenConfiguration));
}

#[test]
fn rewards_are_shared_pro_rata_and_claimed_once() {
    let mut v = vault();
    v.deposit(addr(ALICE), 100, 0).unwrap();
    v.deposit(addr(BOB), 300, 0).unwrap();
    let s = v.distribute_rewards(400_000, 1).unwrap();
    assert_eq!(s.amount, 1_000_000_000_000);
    assert_eq!(
        s.transfers,
        vec![Transfer { token: addr(REWARD_TOKEN), from: addr(ADMIN), to: addr(CONTRACT), amount: 400_000 }]
    );
    assert_eq!(v.pending_rewards(addr(ALICE)), Ok(100_000));
    assert_eq!(v.pending_rewards(addr(BOB)), Ok(300_000));

    assert_eq!(v.claim_rewards(addr(ALICE), 50_000).err(), Some(VaultError::InsufficientContractBalance));
    let s = v.claim_rewards(addr(ALICE), 400_000).unwrap();
    assert_eq!(s.amount, 100_000);
    assert_eq!(
        s.transfers,
        vec![Transfer { token: addr(REWARD_TOKEN), from: addr(CONTRACT), to: addr(ALICE), amount: 100_000 }]
    );
    let again = v.claim_rewards(addr(ALICE), 400_000).unwrap();
    assert_eq!(again.amount, 0);
    assert!(again.transfers.is_empty());
    assert_eq!(v.pending_rewards(addr(BOB)), Ok(300_000));
}

#[test]
fn reward_distribution_checks() {
    let mut v = vault();
    assert_eq!(v.distribute_rewards(99_999, 0).err(), Some(VaultError::InsufficientRewardAmount));
    assert_eq!(v.distribute_rewards(100_000, 0).err(), Some(VaultError::NoDeposits));
    assert_eq!(v.reward_index(), Ok(0));
}

#[test]
fn reward_fee_is_taken_before_distribution() {
    let mut v = vault();
    let treasury = addr(9);
    v.set_fee_config(Some(FeeConfig { treasury, deposit_fee_bps: 0, withdrawal_fee_bps: 0, reward_fee_bps: 1_000 }));
    v.deposit(addr(ALICE), 1_000, 0).unwrap();
    let s = v.distribute_rewards(200_000, 0).unwrap();
    assert_eq!(s.transfers.len(), 2);
    assert_eq!(s.transfers[1], Transfer { token: addr(REWARD_TOKEN), from: addr(CONTRACT), to: treasury, amount: 20_000 });
    assert_eq!(v.pending_rewards(addr(ALICE)), Ok(180_000));
}

#[test]
fn locked_tokens_cannot_be_withdrawn_until_unlocked() {
    let mut v = vault();
    v.deposit(addr(ALICE), 500, 0).unwrap();
    assert_eq!(v.lock(addr(ALICE), 200, 100, 0), Ok(100));
    assert_eq!(v.locked_balance(addr(ALICE)), Ok(200));
    assert_eq!(v.liquid_balance(addr(ALICE)), Ok(300));
    assert_eq!(v.withdraw(addr(ALICE), 400).err(), Some(VaultError::InsufficientBalance));
    assert_eq!(v.unlock_expired(addr(ALICE), 10, 50), Ok(0));
    assert_eq!(v.unlock_expired(addr(ALICE), 10, 100), Ok(200));
    assert_eq!(v.locked_balance(addr(ALICE)), Ok(0));
    assert!(v.withdraw(addr(ALICE), 400).is_ok());
}

#[test]
fn lock_checks() {
    let mut v = vault();
    v.deposit(addr(ALICE), 100, 0).unwrap();
    assert_eq!(v.lock(addr(ALICE), 10, 0, 0), Err(VaultError::InvalidLockDuration));
    assert_eq!(v.lock(addr(ALICE), 101, 10, 0), Err(VaultError::InsufficientBalance));
    assert_eq!(v.lock(addr(ALICE), 10, u64::MAX, 1), Err(VaultError::MathOverflow));
    assert_eq!(v.unlock_expired(addr(ALICE), 51, 0), Err(VaultError::OperationLimitExceeded));
}

#[test]
fn unlock_releases_at_most_limit_locks_oldest_first() {
    let mut v = vault();
    v.deposit(addr(ALICE), 1_000, 0).unwrap();
    v.lock(addr(ALICE), 10, 5, 0).unwrap();
    v.lock(addr(ALICE), 20, 50, 0).unwrap();
    v.lock(addr(ALICE), 30, 5, 0).unwrap();
    assert_eq!(v.unlock_expired(addr(ALICE), 1, 10), Ok(10));
    let left = v.user_locks_of(addr(ALICE));
    assert_eq!(left.len(), 2);
    assert_eq!(left[0].amount, 20);
    assert_eq!(v.unlock_expired(addr(ALICE), 5, 10), Ok(30));
    assert_eq!(v.locked_balance(addr(ALICE)), Ok(20));
}

#[test]
fn early_exit_pays_the_penalty() {
    let mut v = vault();
    v.set_penalty_rate(addr(ADMIN), 1_000).unwrap();
    v.deposit(addr(ALICE), 500, 0).unwrap();
    v.lock(addr(ALICE), 120, 1_000, 0).unwrap();
    v.lock(addr(ALICE), 80, 2_000, 0).unwrap();
    let s = v.withdraw_locked_early(addr(ALICE), 150).unwrap();
    assert_eq!(s.amount, 135);
    assert_eq!(
        s.transfers,
        vec![Transfer { token: addr(DEPOSIT_TOKEN), from: addr(CONTRACT), to: addr(ALICE), amount: 135 }]
    );
    assert_eq!(v.balance(addr(ALICE)), Ok(350));
    assert_eq!(v.locked_balance(addr(ALICE)), Ok(50));
    assert_eq!(v.total_penalties(), Ok(15));
    assert_eq!(v.user_penalties(addr(ALICE)), Ok(15));
    let left = v.user_locks_of(addr(ALICE));
    assert_eq!(left.len(), 1);
    assert_eq!(left[0].amount, 50);
    assert_eq!(left[0].unlock_at, 2_000);
    assert_eq!(v.withdraw_locked_early(addr(ALICE), 51).err(), Some(VaultError::InsufficientBalance));
}

#[test]
fn penalty_rate_checks() {
    let mut v = vault();
    assert_eq!(v.set_penalty_rate(addr(ALICE), 10), Err(VaultError::Unauthorized));
    assert_eq!(v.set_penalty_rate(addr(ADMIN), 10_001), Err(VaultError::InvalidPenaltyRate));
    assert!(v.set_penalty_rate(addr(ADMIN), 10_000).is_ok());
    assert_eq!(v.penalty_rate(), Ok(10_000));
}

#[test]
fn admin_transfer_takes_two_steps() {
    let mut v = vault();
    assert_eq!(v.accept_admin(addr(BOB)), Err(VaultError::NoPendingAdmin));
    v.propose_new_admin(addr(BOB)).unwrap();
    assert_eq!(v.pending_admin(), Ok(Some(addr(BOB))));
    assert_eq!(v.accept_admin(addr(ALICE)), Err(VaultError::Unauthorized));
    v.accept_admin(addr(BOB)).unwrap();
    assert_eq!(v.admin(), Ok(addr(BOB)));
    assert_eq!(v.pending_admin(), Ok(None));
}

#[test]
fn risk_limits_apply_to_deposits_and_withdrawals() {
    let mut v = vault();
    v.initialize_risk(
        addr(ADMIN),
        RiskParameters { max_deposit_amount: 1_000, min_deposit_amount: 10, max_withdrawal_amount: 300, global_cap: 1_500 },
    );
    assert_eq!(v.deposit(addr(ALICE), 5, 0).err(), Some(VaultError::OperationLimitExceeded));
    assert_eq!(v.deposit(addr(ALICE), 1_001, 0).err(), Some(VaultError::OperationLimitExceeded));
    v.deposit(addr(ALICE), 1_000, 0).unwrap();
    assert_eq!(v.deposit(addr(BOB), 600, 0).err(), Some(VaultError::OperationLimitExceeded));
    assert_eq!(v.withdraw(addr(ALICE), 301).err(), Some(VaultError::OperationLimitExceeded));
    v.withdraw(addr(ALICE), 300).unwrap();
    assert!(v.deposit(addr(BOB), 600, 0).is_ok());
}

#[test]
fn side_assets() {
    let mut v = vault();
    let asset = addr(70);
    assert_eq!(v.deposit_asset(addr(ALICE), asset, 10).err(), Some(VaultError::InvalidAddress));
    assert_eq!(v.add_asset(addr(ALICE), asset), Err(VaultError::Unauthorized));
    v.add_asset(addr(ADMIN), asset).unwrap();
    assert_eq!(v.add_asset(addr(ADMIN), asset), Err(VaultError::AssetAlreadySupported));
    assert!(v.is_asset_supported(asset));
    let s = v.deposit_asset(addr(ALICE), asset, 200).unwrap();
    assert_eq!(s.transfers, vec![Transfer { token: asset, from: addr(ALICE), to: addr(CONTRACT), amount: 200 }]);
    v.deposit_asset(addr(BOB), asset, 200).unwrap();
    assert_eq!(v.total_deposits_of_asset(asset), Ok(400));
    assert_eq!(v.balance_of_asset(addr(ALICE), asset), Ok(200));
    assert_eq!(v.withdraw_asset(addr(ALICE), asset, 201).err(), Some(VaultError::InsufficientBalance));
    let idx = v.distribute_rewards_for_asset(addr(ADMIN), asset, 400_000, 0).unwrap().amount;
    assert_eq!(idx, 1_000_000_000_000);
    assert_eq!(v.reward_index_of_asset(asset), Ok(idx));
    assert_eq!(v.pending_rewards_for_asset(addr(ALICE), asset), Ok(200_000));
    let c = v.claim_rewards_for_asset(addr(ALICE), asset, 1_000_000).unwrap();
    assert_eq!(c.amount, 200_000);
    v.withdraw_asset(addr(ALICE), asset, 200).unwrap();
    assert_eq!(v.total_deposits_of_asset(asset), Ok(200));
    // the main pool is untouched by side assets
    assert_eq!(v.total_deposits(), Ok(0));
}

#[test]
fn owner_named_delegates() {
    let mut v = vault();
    assert_eq!(v.authorize_delegate(addr(ALICE), addr(BOB), 0), Err(VaultError::InvalidAddress));
    v.authorize_delegate(addr(ALICE), addr(BOB), DELEGATE_PERM_DEPOSIT).unwrap();
    assert_eq!(v.delegate_permissions(addr(ALICE), addr(BOB)), Ok(DELEGATE_PERM_DEPOSIT));
    let s = v.deposit_as_delegate(addr(ALICE), addr(BOB), 300, 0).unwrap();
    assert_eq!(s.transfers[0].from, addr(BOB));
    assert_eq!(v.balance(addr(ALICE)), Ok(300));
    assert_eq!(v.balance(addr(BOB)), Ok(0));
    assert_eq!(
        v.withdraw_as_delegate(addr(ALICE), addr(BOB), addr(BOB), 100).err(),
        Some(VaultError::Unauthorized)
    );
    v.authorize_delegate(addr(ALICE), addr(BOB), DELEGATE_PERM_DEPOSIT | DELEGATE_PERM_WITHDRAW).unwrap();
    let s = v.withdraw_as_delegate(addr(ALICE), addr(BOB), addr(9), 100).unwrap();
    assert_eq!(s.transfers[0].to, addr(9));
    v.revoke_delegate(addr(ALICE), addr(BOB)).unwrap();
    assert_eq!(v.delegate_permissions(addr(ALICE), addr(BOB)), Ok(0));
}

#[test]
fn operator_delegations() {
    let mut v = vault();
    assert_eq!(v.delegate(addr(ALICE), addr(ALICE), PERMISSION_DEPOSIT, 0, 10), Err(VaultError::CannotDelegateToSelf));
    assert_eq!(v.delegate(addr(ALICE), addr(BOB), PERMISSION_DEPOSIT, 10, 10), Err(VaultError::InvalidExpiration));
    v.set_max_delegations(1).unwrap();
    v.delegate(addr(ALICE), addr(BOB), PERMISSION_DEPOSIT | PERMISSION_WITHDRAW, 100, 10).unwrap();
    assert_eq!(v.delegate(addr(ALICE), addr(7), PERMISSION_DEPOSIT, 0, 10), Err(VaultError::MaxDelegationsExceeded));
    // updating an existing delegation does not count against the limit
    v.delegate(addr(ALICE), addr(BOB), PERMISSION_DEPOSIT | PERMISSION_WITHDRAW | PERMISSION_CLAIM, 200, 10).unwrap();
    assert_eq!(v.get_delegation(addr(ALICE), addr(BOB)).unwrap().expires_at, 200);
    assert_eq!(v.get_delegations(addr(ALICE)).len(), 1);

    let s = v.delegated_deposit(addr(ALICE), addr(BOB), 500, 50).unwrap();
    assert_eq!(s.transfers, vec![Transfer { token: addr(DEPOSIT_TOKEN), from: addr(BOB), to: addr(CONTRACT), amount: 500 }]);
    let s = v.delegated_withdraw(addr(ALICE), addr(BOB), 200, 50).unwrap();
    assert_eq!(s.transfers, vec![Transfer { token: addr(DEPOSIT_TOKEN), from: addr(CONTRACT), to: addr(BOB), amount: 200 }]);
    assert_eq!(v.balance(addr(ALICE)), Ok(300));
    // the delegation has expired at its end time
    assert_eq!(v.delegated_withdraw(addr(ALICE), addr(BOB), 1, 200).err(), Some(VaultError::Unauthorized));
    v.revoke_delegation(addr(ALICE), addr(BOB)).unwrap();
    assert!(v.get_delegation(addr(ALICE), addr(BOB)).is_none());
    assert_eq!(v.delegated_deposit(addr(ALICE), addr(BOB), 1, 50).err(), Some(VaultError::Unauthorized));
}

#[test]
fn upgrade_needs_an_initialized_vault() {
    let v = VaultContract::new(addr(CONTRACT));
    let hash = axionvera::interfaces::Bytes32 { high: 1, low: 2 };
    assert_eq!(v.upgrade(hash), Err(VaultError::NotInitialized));
    assert_eq!(vault().upgrade(hash), Ok(hash));
}

#[test]
fn extreme_amounts_are_refused_before_the_risk_total_moves() {
    let mut v = vault();
    assert_eq!(v.withdraw_locked_early(addr(ALICE), i128::MIN).unwrap_err(), VaultError::NegativeAmount);
    assert_eq!(v.withdraw(addr(ALICE), i128::MIN).unwrap_err(), VaultError::NegativeAmount);
    assert_eq!(v.deposit(addr(ALICE), i128::MIN, 0).unwrap_err(), VaultError::NegativeAmount);
    v.initialize_risk(
        addr(ADMIN),
        RiskParameters { max_deposit_amount: 1_000_000, min_deposit_amount: 0, max_withdrawal_amount: 0, global_cap: 0 },
    );
    v.deposit(addr(ALICE), 500, 0).unwrap();
    assert_eq!(v.deposit(addr(ALICE), i128::MAX, 0).unwrap_err(), VaultError::OperationLimitExceeded);
    assert_eq!(v.total_deposits(), Ok(500));
}
