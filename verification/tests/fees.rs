use axionvera::fees::{build_fee_receipt, calculate_fee_amount, validate_fee_config, FeeLedger};
use axionvera::interfaces::{Address, FeeConfig, FeeError, FeeType};

fn addr(n: u128) -> Address {
    Address { high: 0, low: n }
}

#[test]
fn calculates_fee_amount_and_receipt() {
    let actor = addr(1);
    let treasury = addr(2);
    let asset = addr(3);
    let receipt = build_fee_receipt(FeeType::Deposit, actor, treasury, Some(asset), 10_000, 250, 100).unwrap();
    assert_eq!(receipt.fee_amount, 250);
    assert_eq!(receipt.net_amount, 9_750);
    assert_eq!(receipt.treasury_amount, 250);
    assert_eq!(receipt.actor, actor);
    assert_eq!(receipt.treasury, treasury);
    assert_eq!(receipt.asset, Some(asset));
}

#[test]
fn records_fee_collection_and_updates_accounting() {
    let mut ledger = FeeLedger::new();
    let config = FeeConfig { treasury: addr(2), deposit_fee_bps: 250, withdrawal_fee_bps: 125, reward_fee_bps: 75 };
    let receipt = ledger.collect_fee(FeeType::Deposit, addr(1), Some(addr(3)), 20_000, &config, 250).unwrap();
    assert_eq!(receipt.fee_amount, 500);
    assert_eq!(receipt.net_amount, 19_500);
    let totals = ledger.get_fee_totals(FeeType::Deposit);
    assert_eq!(totals.operation_count, 1);
    assert_eq!(totals.collected_amount, 500);
    assert_eq!(totals.treasury_amount, 500);
}

#[test]
fn zero_fee_does_not_mutate_totals() {
    let mut ledger = FeeLedger::new();
    let config = FeeConfig { treasury: addr(2), deposit_fee_bps: 0, withdrawal_fee_bps: 0, reward_fee_bps: 0 };
    let receipt = ledger.collect_fee(FeeType::Reward, addr(1), None, 1000, &config, 0).unwrap();
    assert_eq!(receipt.fee_amount, 0);
    let totals = ledger.get_fee_totals(FeeType::Reward);
    assert_eq!(totals.operation_count, 0);
    assert_eq!(totals.collected_amount, 0);
    assert_eq!(totals.treasury_amount, 0);
}

#[test]
fn fee_errors_are_reported() {
    assert_eq!(calculate_fee_amount(0, 100), Err(FeeError::InvalidAmount));
    assert_eq!(calculate_fee_amount(-5, 100), Err(FeeError::InvalidAmount));
    assert_eq!(calculate_fee_amount(100, 10_001), Err(FeeError::InvalidFeeRate));
    assert_eq!(calculate_fee_amount(i128::MAX, 10_000), Err(FeeError::MathOverflow));
    assert_eq!(calculate_fee_amount(999, 100), Ok(9));
}

#[test]
fn fee_config_rates_must_be_basis_points() {
    let ok = FeeConfig { treasury: addr(2), deposit_fee_bps: 10_000, withdrawal_fee_bps: 0, reward_fee_bps: 1 };
    assert_eq!(validate_fee_config(&ok), Ok(()));
    let bad = FeeConfig { treasury: addr(2), deposit_fee_bps: 0, withdrawal_fee_bps: 10_001, reward_fee_bps: 1 };
    assert_eq!(validate_fee_config(&bad), Err(FeeError::InvalidFeeRate));
}

#[test]
fn receipt_fee_and_net_add_up() {
    let r = build_fee_receipt(FeeType::Withdrawal, addr(1), addr(2), None, 12_345, 333, 7).unwrap();
    assert_eq!(r.fee_amount + r.net_amount, 12_345);
    assert_eq!(r.fee_amount, 411);
}
