use vstd::prelude::*;

use crate::interfaces::{Address, FeeError};
use crate::risk::RiskParameters;

verus! {

/// Errors reported by the vault.
#[derive(Copy, Clone, Debug, Eq, PartialEq, Structural)]
pub enum VaultError {
    AlreadyInitialized,
    NotInitialized,
    NoPendingAdmin,
    Unauthorized,
    InvalidAmount,
    NegativeAmount,
    InvalidAddress,
    InvalidTokenConfiguration,
    InsufficientRewardAmount,
    InvalidLockDuration,
    InvalidPenaltyRate,
    InvalidUtilizationParameters,
    InsufficientContractBalance,
    CannotDelegateToSelf,
    InvalidExpiration,
    OperationLimitExceeded,
    MathOverflow,
    NoDeposits,
    InvalidFeeRate,
    Paused,
    InsufficientBalance,
    AssetAlreadySupported,
    MaxDelegationsExceeded,
}

/// Fixed-point scale of the reward index.
pub const PRECISION_FACTOR: i128 = 1_000_000_000;

/// Rust's truncating division by a positive divisor.
pub open spec fn trunc_div(x: int, d: int) -> int {
    if x >= 0 {
        x / d
    } else {
        -((-x) / d)
    }
}

/// How much the reward index grows when `reward_amount` is spread over `total_deposits`.
pub open spec fn spec_reward_index_increment(reward_amount: i128, total_deposits: i128) -> Result<i128, VaultError> {
    if total_deposits <= 0 {
        Err(VaultError::NoDeposits)
    } else if reward_amount * PRECISION_FACTOR > i128::MAX || reward_amount * PRECISION_FACTOR < i128::MIN {
        Err(VaultError::MathOverflow)
    } else {
        Ok(trunc_div(reward_amount * PRECISION_FACTOR, total_deposits as int) as i128)
    }
}

/// The rewards a balance earns while the reward index grows by `index_delta`.
pub open spec fn spec_accrued_rewards(balance: i128, index_delta: i128) -> Result<i128, VaultError> {
    if balance * index_delta > i128::MAX || balance * index_delta < i128::MIN {
        Err(VaultError::MathOverflow)
    } else {
        Ok(trunc_div(balance * index_delta, PRECISION_FACTOR as int) as i128)
    }
}

pub proof fn lemma_trunc_div_bounds(x: int, d: int)
    requires
        d > 0,
    ensures
        x >= 0 ==> trunc_div(x, d) == x / d && 0 <= x / d <= x,
        x < 0 ==> x <= trunc_div(x, d) <= 0,
{
    if x >= 0 {
        assert(0 <= x / d <= x) by (nonlinear_arith)
            requires
                x >= 0,
                d > 0,
        ;
    } else {
        assert(0 <= (-x) / d <= -x) by (nonlinear_arith)
            requires
                -x > 0,
                d > 0,
        ;
    }
}

/// Spreading a non-negative reward never lowers the reward index.
pub proof fn lemma_increment_nonneg(reward_amount: i128, total_deposits: i128)
    requires
        reward_amount >= 0,
    ensures
        spec_reward_index_increment(reward_amount, total_deposits) matches Ok(inc) ==> inc >= 0,
{
    if total_deposits > 0 {
        assert(reward_amount * PRECISION_FACTOR >= 0) by (nonlinear_arith)
            requires
                reward_amount >= 0,
                PRECISION_FACTOR > 0,
        ;
        lemma_trunc_div_bounds(reward_amount * PRECISION_FACTOR, total_deposits as int);
    }
}

/// The reward index grows by the reward per deposited token, scaled by the
/// precision factor and rounded down: for a non-negative reward spread over a
/// positive total, `inc * total <= reward * PRECISION_FACTOR < (inc + 1) * total`.
pub proof fn lemma_increment_is_share_per_token(reward_amount: i128, total_deposits: i128)
    requires
        reward_amount >= 0,
    ensures
        spec_reward_index_increment(reward_amount, total_deposits) matches Ok(inc) ==> inc * total_deposits
            <= reward_amount * PRECISION_FACTOR < (inc + 1) * total_deposits,
        total_deposits <= 0 ==> spec_reward_index_increment(reward_amount, total_deposits) == Err::<i128, VaultError>(
            VaultError::NoDeposits,
        ),
{
    if total_deposits > 0 && reward_amount * PRECISION_FACTOR <= i128::MAX {
        let x: int = reward_amount * PRECISION_FACTOR;
        let t: int = total_deposits as int;
        assert(x >= 0) by (nonlinear_arith)
            requires
                reward_amount >= 0,
                x == reward_amount * PRECISION_FACTOR,
                PRECISION_FACTOR > 0,
        ;
        let q: int = x / t;
        assert(q * t <= x < (q + 1) * t) by (nonlinear_arith)
            requires
                x >= 0,
                t > 0,
                q == x / t,
        ;
    }
}

/// A balance earns the index growth times the balance, scaled down by the
/// precision factor and rounded down: for a non-negative balance and growth,
/// `accrued * PRECISION_FACTOR <= balance * delta < (accrued + 1) * PRECISION_FACTOR`.
pub proof fn lemma_accrued_is_balance_times_growth(balance: i128, index_delta: i128)
    requires
        balance >= 0,
        index_delta >= 0,
    ensures
        spec_accrued_rewards(balance, index_delta) matches Ok(a) ==> a * PRECISION_FACTOR <= balance * index_delta
            < (a + 1) * PRECISION_FACTOR,
        index_delta == 0 ==> spec_accrued_rewards(balance, index_delta) == Ok::<i128, VaultError>(0),
{
    let x: int = balance * index_delta;
    assert(x >= 0) by (nonlinear_arith)
        requires
            balance >= 0,
            index_delta >= 0,
            x == balance * index_delta,
    ;
    if index_delta == 0 {
        assert(x == 0) by (nonlinear_arith)
            requires
                index_delta == 0,
                x == balance * index_delta,
        ;
    }
    let p: int = PRECISION_FACTOR as int;
    let q: int = x / p;
    assert(q * p <= x < (q + 1) * p) by (nonlinear_arith)
        requires
            x >= 0,
            p > 0,
            q == x / p,
    ;
}

/// Index increment for a reward distribution, checked against overflow and empty vaults.
pub fn checked_reward_index_increment(reward_amount: i128, total_deposits: i128) -> (r: Result<i128, VaultError>)
    ensures
        r == spec_reward_index_increment(reward_amount, total_deposits),
{
    if total_deposits <= 0 {
        return Err(VaultError::NoDeposits);
    }
    let scaled = match reward_amount.checked_mul(PRECISION_FACTOR) {
        Some(v) => v,
        None => {
            return Err(VaultError::MathOverflow);
        },
    };
    proof {
        lemma_trunc_div_bounds(scaled as int, total_deposits as int);
    }
    match scaled.checked_div(total_deposits) {
        Some(v) => Ok(v),
        None => Err(VaultError::MathOverflow),
    }
}

/// Rewards accrued by `balance` over an index increase, checked against overflow.
pub fn checked_accrued_rewards(balance: i128, index_delta: i128) -> (r: Result<i128, VaultError>)
    ensures
        r == spec_accrued_rewards(balance, index_delta),
{
    let scaled = match balance.checked_mul(index_delta) {
        Some(v) => v,
        None => {
            return Err(VaultError::MathOverflow);
        },
    };
    proof {
        lemma_trunc_div_bounds(scaled as int, PRECISION_FACTOR as int);
    }
    match scaled.checked_div(PRECISION_FACTOR) {
        Some(v) => Ok(v),
        None => Err(VaultError::MathOverflow),
    }
}

/// Rewards are never over-distributed: when `reward_amount` is spread over
/// `total_deposits`, a holder of `balance` out of that total accrues no more
/// than their pro-rata share (`accrued * total <= balance * reward`), hence
/// never more than the whole reward, and never a negative amount.
pub proof fn lemma_accrued_within_share(reward_amount: i128, total_deposits: i128, balance: i128)
    requires
        reward_amount >= 0,
        0 <= balance <= total_deposits,
        spec_reward_index_increment(reward_amount, total_deposits) is Ok,
        spec_accrued_rewards(balance, spec_reward_index_increment(reward_amount, total_deposits)->Ok_0) is Ok,
    ensures
        ({
            let delta = spec_reward_index_increment(reward_amount, total_deposits)->Ok_0;
            let accrued = spec_accrued_rewards(balance, delta)->Ok_0;
            &&& 0 <= accrued
            &&& accrued * total_deposits <= balance * reward_amount
            &&& accrued <= reward_amount
        }),
{
    let p: int = PRECISION_FACTOR as int;
    let t: int = total_deposits as int;
    let r: int = reward_amount as int;
    let b: int = balance as int;
    assert(r * p >= 0) by (nonlinear_arith)
        requires
            r >= 0,
            p > 0,
    ;
    let q: int = (r * p) / t;
    assert(0 <= q && q * t <= r * p) by (nonlinear_arith)
        requires
            r * p >= 0,
            t > 0,
            q == (r * p) / t,
    ;
    assert(b * q >= 0) by (nonlinear_arith)
        requires
            b >= 0,
            q >= 0,
    ;
    let a: int = (b * q) / p;
    assert(0 <= a && a * p <= b * q) by (nonlinear_arith)
        requires
            b * q >= 0,
            p > 0,
            a == (b * q) / p,
    ;
    assert(a * t <= b * r) by (nonlinear_arith)
        requires
            a * p <= b * q,
            q * t <= r * p,
            p > 0,
            t > 0,
            b >= 0,
            a >= 0,
    ;
    assert(a <= r) by (nonlinear_arith)
        requires
            a * t <= b * r,
            b <= t,
            r >= 0,
            t > 0,
            a >= 0,
    ;
}

/// A vault's reward curve point: a utilization level and the multiplier that applies from it on.
#[derive(Clone, Copy, Debug, Eq, PartialEq, Structural)]
pub struct MultiplierPoint {
    pub utilization_bps: u32,
    pub multiplier_bps: u32,
}

pub open spec fn valid_multiplier_point(p: MultiplierPoint) -> bool {
    p.utilization_bps <= 10_000 && p.multiplier_bps != 0 && p.multiplier_bps <= 100_000
}

/// A curve is valid when every point is in range and utilizations never decrease.
pub open spec fn valid_multiplier_curve(points: Seq<MultiplierPoint>) -> bool {
    &&& forall|i: int| 0 <= i < points.len() ==> valid_multiplier_point(#[trigger] points[i])
    &&& forall|i: int, j: int|
        0 <= i < j < points.len() ==> points[i].utilization_bps <= points[j].utilization_bps
}

/// Reject negative and zero amounts.
pub fn validate_positive_amount(amount: i128) -> (r: Result<(), VaultError>)
    ensures
        amount < 0 ==> r == Err::<(), VaultError>(VaultError::NegativeAmount),
        amount == 0 ==> r == Err::<(), VaultError>(VaultError::InvalidAmount),
        amount > 0 ==> r is Ok,
{
    if amount < 0 {
        return Err(VaultError::NegativeAmount);
    }
    if amount == 0 {
        return Err(VaultError::InvalidAmount);
    }
    Ok(())
}

/// The deposit and reward tokens must differ.
pub fn validate_distinct_token_addresses(deposit_token: &Address, reward_token: &Address) -> (r: Result<(), VaultError>)
    ensures
        r == if *deposit_token == *reward_token {
            Err(VaultError::InvalidTokenConfiguration)
        } else {
            Ok(())
        },
{
    if *deposit_token == *reward_token {
        return Err(VaultError::InvalidTokenConfiguration);
    }
    Ok(())
}

/// Check a reward multiplier curve; an empty curve is valid.
pub fn validate_utilization_multipliers(multipliers: &Vec<MultiplierPoint>) -> (r: Result<(), VaultError>)
    ensures
        r is Ok <==> valid_multiplier_curve(multipliers@),
        r is Err ==> r == Err::<(), VaultError>(VaultError::InvalidUtilizationParameters),
{
    let mut last_util_bps: u32 = 0;
    let mut i: usize = 0;
    while i < multipliers.len()
        invariant
            0 <= i <= multipliers@.len(),
            forall|k: int| 0 <= k < i ==> valid_multiplier_point(#[trigger] multipliers@[k]),
            forall|k: int, l: int|
                0 <= k < l < i ==> multipliers@[k].utilization_bps <= multipliers@[l].utilization_bps,
            i > 0 ==> last_util_bps == multipliers@[i - 1].utilization_bps,
            i == 0 ==> last_util_bps == 0,
            forall|k: int| 0 <= k < i ==> multipliers@[k].utilization_bps <= last_util_bps,
        decreases multipliers.len() - i,
    {
        let point = multipliers[i];
        if point.utilization_bps > 10_000 || point.multiplier_bps == 0 || point.multiplier_bps > 100_000 {
            proof {
                assert(!valid_multiplier_point(multipliers@[i as int]));
            }
            return Err(VaultError::InvalidUtilizationParameters);
        }
        if point.utilization_bps < last_util_bps {
            proof {
                assert(multipliers@[i - 1].utilization_bps > multipliers@[i as int].utilization_bps);
            }
            return Err(VaultError::InvalidUtilizationParameters);
        }
        last_util_bps = point.utilization_bps;
        i = i + 1;
    }
    Ok(())
}

/// The contract must hold at least the amount it is asked to pay out.
pub fn ensure_contract_balance(balance: i128, requested_amount: i128) -> (r: Result<(), VaultError>)
    ensures
        r == if balance < requested_amount {
            Err(VaultError::InsufficientContractBalance)
        } else {
            Ok(())
        },
{
    if balance < requested_amount {
        return Err(VaultError::InsufficientContractBalance);
    }
    Ok(())
}

/// How a fee failure is reported by the vault.
pub open spec fn spec_fee_error_to_vault_error(error: FeeError) -> VaultError {
    match error {
        FeeError::InvalidAmount => VaultError::InvalidAmount,
        FeeError::InvalidFeeRate => VaultError::InvalidFeeRate,
        FeeError::MathOverflow => VaultError::MathOverflow,
    }
}

pub fn fee_error_to_vault_error(error: FeeError) -> (v: VaultError)
    ensures
        v == spec_fee_error_to_vault_error(error),
{
    match error {
        FeeError::InvalidAmount => VaultError::InvalidAmount,
        FeeError::InvalidFeeRate => VaultError::InvalidFeeRate,
        FeeError::MathOverflow => VaultError::MathOverflow,
    }
}

/// The limits the vault applies when none have been configured: all off.
pub open spec fn default_risk_parameters() -> RiskParameters {
    RiskParameters { max_deposit_amount: 0, min_deposit_amount: 0, max_withdrawal_amount: 0, global_cap: 0 }
}

pub open spec fn effective_params(params: Option<RiskParameters>) -> RiskParameters {
    match params {
        Some(p) => p,
        None => default_risk_parameters(),
    }
}

/// Calls into other contracts.
pub struct CrossContractClient;

impl CrossContractClient {
    /// A contract may not call itself.
    pub fn validate_contract_exists(contract_address: &Address, current_contract: &Address) -> (r: Result<(), VaultError>)
        ensures
            r == if *contract_address == *current_contract {
                Err(VaultError::InvalidAddress)
            } else {
                Ok(())
            },
    {
        if *contract_address == *current_contract {
            return Err(VaultError::InvalidAddress);
        }
        Ok(())
    }
}

} // verus!
