use axionvera::interfaces::{Address, FeeError};
use axionvera::vault::math::{
    ensure_contract_balance, fee_error_to_vault_error, validate_distinct_token_addresses, validate_positive_amount,
    validate_utilization_multipliers, CrossContractClient, MultiplierPoint, VaultError,
};

fn addr(n: u128) -> Address {
    Address { high: 0, low: n }
}

#[test]
fn amounts_must_be_positive() {
    assert_eq!(validate_positive_amount(-1), Err(VaultError::NegativeAmount));
    assert_eq!(validate_positive_amount(0), Err(VaultError::InvalidAmount));
    assert_eq!(validate_positive_amount(1), Ok(()));
}

#[test]
fn deposit_and_reward_tokens_must_differ() {
    assert_eq!(validate_distinct_token_addresses(&addr(1), &addr(1)), Err(VaultError::InvalidTokenConfiguration));
    assert_eq!(validate_distinct_token_addresses(&addr(1), &addr(2)), Ok(()));
}

#[test]
fn multiplier_curves() {
    assert_eq!(validate_utilization_multipliers(&vec![]), Ok(()));
    let good = vec![
        MultiplierPoint { utilization_bps: 0, multiplier_bps: 10_000 },
        MultiplierPoint { utilization_bps: 5_000, multiplier_bps: 15_000 },
        MultiplierPoint { utilization_bps: 5_000, multiplier_bps: 20_000 },
        MultiplierPoint { utilization_bps: 10_000, multiplier_bps: 100_000 },
    ];
    assert_eq!(validate_utilization_multipliers(&good), Ok(()));
    let unsorted = vec![
        MultiplierPoint { utilization_bps: 6_000, multiplier_bps: 10_000 },
        MultiplierPoint { utilization_bps: 5_000, multiplier_bps: 10_000 },
    ];
    assert_eq!(validate_utilization_multipliers(&unsorted), Err(VaultError::InvalidUtilizationParameters));
    let zero = vec![MultiplierPoint { utilization_bps: 100, multiplier_bps: 0 }];
    assert_eq!(validate_utilization_multipliers(&zero), Err(VaultError::InvalidUtilizationParameters));
    let over = vec![MultiplierPoint { utilization_bps: 10_001, multiplier_bps: 1 }];
    assert_eq!(validate_utilization_multipliers(&over), Err(VaultError::InvalidUtilizationParameters));
    let too_high = vec![MultiplierPoint { utilization_bps: 1, multiplier_bps: 100_001 }];
    assert_eq!(validate_utilization_multipliers(&too_high), Err(VaultError::InvalidUtilizationParameters));
}

#[test]
fn contract_balance_must_cover_payouts() {
    assert_eq!(ensure_contract_balance(99, 100), Err(VaultError::InsufficientContractBalance));
    assert_eq!(ensure_contract_balance(100, 100), Ok(()));
}

#[test]
fn fee_errors_map_to_vault_errors() {
    assert_eq!(fee_error_to_vault_error(FeeError::InvalidAmount), VaultError::InvalidAmount);
    assert_eq!(fee_error_to_vault_error(FeeError::InvalidFeeRate), VaultError::InvalidFeeRate);
    assert_eq!(fee_error_to_vault_error(FeeError::MathOverflow), VaultError::MathOverflow);
}

#[test]
fn a_contract_may_not_call_itself() {
    assert_eq!(CrossContractClient::validate_contract_exists(&addr(5), &addr(5)), Err(VaultError::InvalidAddress));
    assert_eq!(CrossContractClient::validate_contract_exists(&addr(5), &addr(6)), Ok(()));
}
