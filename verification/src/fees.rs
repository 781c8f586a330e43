use vstd::prelude::*;

use crate::interfaces::{
    spec_rate_for, Address, FeeConfig, FeeError, FeeReceipt, FeeTotals, FeeType,
    TREASURY_BPS_DENOMINATOR,
};

verus! {

pub struct FeeContract;

impl FeeContract {
    pub fn version() -> (v: u32)
        ensures
            v == 1,
    {
        1
    }
}

/// The fee charged on `amount` at `fee_bps` basis points, or why none can be computed.
pub open spec fn spec_fee_amount(amount: i128, fee_bps: u32) -> Result<i128, FeeError> {
    if amount <= 0 {
        Err(FeeError::InvalidAmount)
    } else if fee_bps > 10_000 {
        Err(FeeError::InvalidFeeRate)
    } else if amount * fee_bps > i128::MAX {
        Err(FeeError::MathOverflow)
    } else {
        Ok(((amount * fee_bps) / 10_000) as i128)
    }
}

/// The receipt of a fee event, or why none can be built.
pub open spec fn spec_fee_receipt(
    fee_type: FeeType,
    actor: Address,
    treasury: Address,
    asset: Option<Address>,
    gross_amount: i128,
    fee_bps: u32,
    timestamp: u64,
) -> Result<FeeReceipt, FeeError> {
    match spec_fee_amount(gross_amount, fee_bps) {
        Err(e) => Err(e),
        Ok(fee) => Ok(
            FeeReceipt {
                fee_type,
                actor,
                treasury,
                asset,
                gross_amount,
                fee_bps,
                fee_amount: fee,
                net_amount: (gross_amount - fee) as i128,
                treasury_amount: fee,
                timestamp,
            },
        ),
    }
}

/// Whether every rate of a configuration is a legal basis-point value.
pub open spec fn spec_valid_fee_config(config: FeeConfig) -> bool {
    &&& config.deposit_fee_bps <= 10_000
    &&& config.withdrawal_fee_bps <= 10_000
    &&& config.reward_fee_bps <= 10_000
}

/// Validate that a fee configuration uses legal basis-point values.
pub fn validate_fee_config(config: &FeeConfig) -> (r: Result<(), FeeError>)
    ensures
        r is Ok <==> spec_valid_fee_config(*config),
        r is Err ==> r == Err::<(), FeeError>(FeeError::InvalidFeeRate),
{
    validate_rate(config.deposit_fee_bps)?;
    validate_rate(config.withdrawal_fee_bps)?;
    validate_rate(config.reward_fee_bps)?;
    Ok(())
}

/// Return the basis-point rate for the requested fee kind.
pub fn fee_rate(config: &FeeConfig, fee_type: FeeType) -> (r: u32)
    ensures
        r == spec_rate_for(*config, fee_type),
{
    config.rate_for(fee_type)
}

/// Compute the gross fee, net amount, and treasury allocation for a fee event.
pub fn build_fee_receipt(
    fee_type: FeeType,
    actor: Address,
    treasury: Address,
    asset: Option<Address>,
    gross_amount: i128,
    fee_bps: u32,
    timestamp: u64,
) -> (r: Result<FeeReceipt, FeeError>)
    ensures
        r == spec_fee_receipt(fee_type, actor, treasury, asset, gross_amount, fee_bps, timestamp),
{
    let fee_amount = calculate_fee_amount(gross_amount, fee_bps)?;
    proof {
        lemma_fee_bounds(gross_amount, fee_bps);
    }
    let net_amount = match gross_amount.checked_sub(fee_amount) {
        Some(n) => n,
        None => {
            return Err(FeeError::MathOverflow);
        },
    };
    Ok(
        FeeReceipt {
            fee_type,
            actor,
            treasury,
            asset,
            gross_amount,
            fee_bps,
            fee_amount,
            net_amount,
            treasury_amount: fee_amount,
            timestamp,
        },
    )
}

/// Calculate the fee amount for a gross amount and basis-point rate.
pub fn calculate_fee_amount(amount: i128, fee_bps: u32) -> (r: Result<i128, FeeError>)
    ensures
        r == spec_fee_amount(amount, fee_bps),
{
    validate_amount(amount)?;
    validate_rate(fee_bps)?;
    let scaled = match amount.checked_mul(fee_bps as i128) {
        Some(v) => v,
        None => {
            return Err(FeeError::MathOverflow);
        },
    };
    match scaled.checked_div(TREASURY_BPS_DENOMINATOR as i128) {
        Some(v) => Ok(v),
        None => Err(FeeError::MathOverflow),
    }
}

/// A fee never exceeds the amount it is charged on: for every amount and rate
/// that yield a fee, the fee lies between zero and the amount, and the fee and
/// the net amount add up to the gross amount.
pub proof fn lemma_fee_bounds(amount: i128, fee_bps: u32)
    ensures
        spec_fee_amount(amount, fee_bps) matches Ok(fee) ==> 0 <= fee <= amount,
        spec_fee_receipt(FeeType::Deposit, Address { high: 0, low: 0 }, Address { high: 0, low: 0 }, None, amount, fee_bps, 0) matches Ok(rc) ==> rc.fee_amount + rc.net_amount == amount,
{
    if amount > 0 && fee_bps <= 10_000 && amount * fee_bps <= i128::MAX {
        assert(0 <= amount * fee_bps <= amount * 10_000) by (nonlinear_arith)
            requires
                amount > 0,
                fee_bps <= 10_000,
        ;
        assert((amount * fee_bps) / 10_000 <= amount) by (nonlinear_arith)
            requires
                0 <= amount * fee_bps <= amount * 10_000,
        ;
    }
}

/// Every receipt splits the gross amount exactly: the fee and the net amount
/// add up to it, the fee lies between zero and it, and all of the fee goes
/// to the treasury.
pub proof fn lemma_receipt_conserves_amount(
    fee_type: FeeType,
    actor: Address,
    treasury: Address,
    asset: Option<Address>,
    gross_amount: i128,
    fee_bps: u32,
    timestamp: u64,
)
    ensures
        spec_fee_receipt(fee_type, actor, treasury, asset, gross_amount, fee_bps, timestamp) matches Ok(rc)
            ==> {
            &&& rc.fee_amount + rc.net_amount == gross_amount
            &&& 0 <= rc.fee_amount <= gross_amount
            &&& rc.treasury_amount == rc.fee_amount
        },
{
    lemma_fee_bounds(gross_amount, fee_bps);
}

/// Each kind of fee is charged at its own configured rate: deposits at the
/// deposit rate, withdrawals at the withdrawal rate, rewards at the reward rate.
pub proof fn lemma_rate_is_own_field(config: FeeConfig, fee_type: FeeType)
    ensures
        fee_type == FeeType::Deposit ==> spec_rate_for(config, fee_type) == config.deposit_fee_bps,
        fee_type == FeeType::Withdrawal ==> spec_rate_for(config, fee_type) == config.withdrawal_fee_bps,
        fee_type == FeeType::Reward ==> spec_rate_for(config, fee_type) == config.reward_fee_bps,
{
}

/// A collected fee is the configured rate of its kind applied to the gross
/// amount, rounded down: the receipt names the kind's own rate, and the fee
/// is the largest amount whose ten-thousandfold does not exceed the gross
/// amount times that rate; the rest is the net amount.
pub proof fn lemma_collected_fee_amount(
    config: FeeConfig,
    fee_type: FeeType,
    actor: Address,
    asset: Option<Address>,
    gross_amount: i128,
    timestamp: u64,
)
    ensures
        spec_fee_receipt(fee_type, actor, config.treasury, asset, gross_amount, spec_rate_for(config, fee_type), timestamp)
            matches Ok(rc) ==> {
            &&& (fee_type == FeeType::Deposit ==> rc.fee_bps == config.deposit_fee_bps)
            &&& (fee_type == FeeType::Withdrawal ==> rc.fee_bps == config.withdrawal_fee_bps)
            &&& (fee_type == FeeType::Reward ==> rc.fee_bps == config.reward_fee_bps)
            &&& rc.fee_amount * 10_000 <= gross_amount * rc.fee_bps < (rc.fee_amount + 1) * 10_000
            &&& rc.net_amount == gross_amount - rc.fee_amount
        },
{
    let bps = spec_rate_for(config, fee_type);
    if gross_amount > 0 && bps <= 10_000 && gross_amount * bps <= i128::MAX {
        let x = gross_amount * bps;
        assert(x >= 0) by (nonlinear_arith)
            requires
                gross_amount > 0,
                bps >= 0,
                x == gross_amount * bps,
        ;
        let f = x / 10_000;
        assert(f * 10_000 <= x < (f + 1) * 10_000) by (nonlinear_arith)
            requires
                x >= 0,
                f == x / 10_000,
        ;
    }
}

fn validate_amount(amount: i128) -> (r: Result<(), FeeError>)
    ensures
        r == if amount <= 0 {
            Err(FeeError::InvalidAmount)
        } else {
            Ok(())
        },
{
    if amount <= 0 {
        return Err(FeeError::InvalidAmount);
    }
    Ok(())
}

fn validate_rate(rate_bps: u32) -> (r: Result<(), FeeError>)
    ensures
        r == if rate_bps > 10_000 {
            Err(FeeError::InvalidFeeRate)
        } else {
            Ok(())
        },
{
    if rate_bps > TREASURY_BPS_DENOMINATOR {
        return Err(FeeError::InvalidFeeRate);
    }
    Ok(())
}

// ---------------------------------------------------------------------------
// Fee totals
// ---------------------------------------------------------------------------

/// Running totals of collected fees, one per kind of fee.
#[derive(Clone, Copy, Debug, Eq, PartialEq, Structural)]
pub struct FeeLedger {
    pub deposit: FeeTotals,
    pub withdrawal: FeeTotals,
    pub reward: FeeTotals,
}

pub open spec fn spec_totals_for(ledger: FeeLedger, fee_type: FeeType) -> FeeTotals {
    match fee_type {
        FeeType::Deposit => ledger.deposit,
        FeeType::Withdrawal => ledger.withdrawal,
        FeeType::Reward => ledger.reward,
    }
}

pub open spec fn spec_with_totals(ledger: FeeLedger, fee_type: FeeType, t: FeeTotals) -> FeeLedger {
    match fee_type {
        FeeType::Deposit => FeeLedger { deposit: t, ..ledger },
        FeeType::Withdrawal => FeeLedger { withdrawal: t, ..ledger },
        FeeType::Reward => FeeLedger { reward: t, ..ledger },
    }
}

/// The totals after one more collection of `fee` of which `treasury` goes to the treasury.
pub open spec fn spec_add_collection(t: FeeTotals, fee: i128, treasury: i128) -> Option<FeeTotals> {
    if t.operation_count + 1 > u64::MAX || t.collected_amount + fee > i128::MAX
        || t.collected_amount + fee < i128::MIN || t.treasury_amount + treasury > i128::MAX
        || t.treasury_amount + treasury < i128::MIN {
        None
    } else {
        Some(
            FeeTotals {
                operation_count: (t.operation_count + 1) as u64,
                collected_amount: (t.collected_amount + fee) as i128,
                treasury_amount: (t.treasury_amount + treasury) as i128,
            },
        )
    }
}

/// Totals with nothing collected.
pub open spec fn spec_empty_ledger() -> FeeLedger {
    FeeLedger {
        deposit: FeeTotals { operation_count: 0, collected_amount: 0, treasury_amount: 0 },
        withdrawal: FeeTotals { operation_count: 0, collected_amount: 0, treasury_amount: 0 },
        reward: FeeTotals { operation_count: 0, collected_amount: 0, treasury_amount: 0 },
    }
}

impl FeeLedger {
    pub fn new() -> (l: Self)
        ensures
            l == spec_empty_ledger(),
    {
        let zero = FeeTotals { operation_count: 0, collected_amount: 0, treasury_amount: 0 };
        FeeLedger { deposit: zero, withdrawal: zero, reward: zero }
    }

    pub fn get_fee_totals(&self, fee_type: FeeType) -> (t: FeeTotals)
        ensures
            t == spec_totals_for(*self, fee_type),
    {
        match fee_type {
            FeeType::Deposit => self.deposit,
            FeeType::Withdrawal => self.withdrawal,
            FeeType::Reward => self.reward,
        }
    }

    /// Add one collection to the totals of a kind of fee.
    pub fn record_fee_totals(&mut self, fee_type: FeeType, fee_amount: i128, treasury_amount: i128) -> (r: Result<FeeTotals, FeeError>)
        ensures
            match spec_add_collection(spec_totals_for(*old(self), fee_type), fee_amount, treasury_amount) {
                None => r == Err::<FeeTotals, FeeError>(FeeError::MathOverflow) && *final(self) == *old(self),
                Some(t) => r == Ok::<FeeTotals, FeeError>(t) && *final(self) == spec_with_totals(*old(self), fee_type, t),
            },
    {
        let t = self.get_fee_totals(fee_type);
        let count = match t.operation_count.checked_add(1) {
            Some(c) => c,
            None => {
                return Err(FeeError::MathOverflow);
            },
        };
        let collected = match t.collected_amount.checked_add(fee_amount) {
            Some(c) => c,
            None => {
                return Err(FeeError::MathOverflow);
            },
        };
        let treasury = match t.treasury_amount.checked_add(treasury_amount) {
            Some(c) => c,
            None => {
                return Err(FeeError::MathOverflow);
            },
        };
        let next = FeeTotals { operation_count: count, collected_amount: collected, treasury_amount: treasury };
        match fee_type {
            FeeType::Deposit => self.deposit = next,
            FeeType::Withdrawal => self.withdrawal = next,
            FeeType::Reward => self.reward = next,
        }
        Ok(next)
    }

    /// Record a fee receipt in the running totals. A receipt without a fee
    /// leaves the totals as they are.
    pub fn record_fee_collection(&mut self, receipt: &FeeReceipt) -> (r: Result<FeeTotals, FeeError>)
        ensures
            receipt.fee_amount == 0 ==> r == Ok::<FeeTotals, FeeError>(spec_totals_for(*old(self), receipt.fee_type)) && *final(self) == *old(self),
            receipt.fee_amount != 0 ==> match spec_add_collection(spec_totals_for(*old(self), receipt.fee_type), receipt.fee_amount, receipt.treasury_amount) {
                None => r == Err::<FeeTotals, FeeError>(FeeError::MathOverflow) && *final(self) == *old(self),
                Some(t) => r == Ok::<FeeTotals, FeeError>(t) && *final(self) == spec_with_totals(*old(self), receipt.fee_type, t),
            },
    {
        if receipt.fee_amount == 0 {
            return Ok(self.get_fee_totals(receipt.fee_type));
        }
        self.record_fee_totals(receipt.fee_type, receipt.fee_amount, receipt.treasury_amount)
    }

    /// Build and record a fee receipt from a configuration record; `timestamp`
    /// is the ledger time of the collection.
    pub fn collect_fee(
        &mut self,
        fee_type: FeeType,
        actor: Address,
        asset: Option<Address>,
        gross_amount: i128,
        config: &FeeConfig,
        timestamp: u64,
    ) -> (r: Result<FeeReceipt, FeeError>)
        ensures
            match spec_fee_receipt(fee_type, actor, config.treasury, asset, gross_amount, spec_rate_for(*config, fee_type), timestamp) {
                Err(e) => r == Err::<FeeReceipt, FeeError>(e) && *final(self) == *old(self),
                Ok(rc) => if rc.fee_amount == 0 {
                    r == Ok::<FeeReceipt, FeeError>(rc) && *final(self) == *old(self)
                } else {
                    match spec_add_collection(spec_totals_for(*old(self), fee_type), rc.fee_amount, rc.treasury_amount) {
                        None => r == Err::<FeeReceipt, FeeError>(FeeError::MathOverflow) && *final(self) == *old(self),
                        Some(t) => r == Ok::<FeeReceipt, FeeError>(rc) && *final(self) == spec_with_totals(*old(self), fee_type, t),
                    }
                },
            },
    {
        let receipt = build_fee_receipt(
            fee_type,
            actor,
            config.treasury,
            asset,
            gross_amount,
            fee_rate(config, fee_type),
            timestamp,
        )?;
        let _ = self.record_fee_collection(&receipt)?;
        Ok(receipt)
    }
}

} // verus!
