use vstd::prelude::*;

use crate::interfaces::Address;

verus! {

#[derive(Copy, Clone, Debug, Eq, PartialEq, PartialOrd, Ord, Structural)]
pub enum RiskError {
    TooSmall,
    TooLarge,
    CapReached,
    Unauthorized,
}

impl RiskError {
    /// The numeric code under which the error is reported to callers.
    pub fn code(&self) -> (c: u32)
        ensures
            c == 1 <==> *self == RiskError::TooSmall,
            c == 2 <==> *self == RiskError::TooLarge,
            c == 3 <==> *self == RiskError::CapReached,
            c == 4 <==> *self == RiskError::Unauthorized,
    {
        match self {
            RiskError::TooSmall => 1,
            RiskError::TooLarge => 2,
            RiskError::CapReached => 3,
            RiskError::Unauthorized => 4,
        }
    }
}

#[derive(Clone, Copy, Debug, Eq, PartialEq, Structural)]
pub struct RiskParameters {
    pub max_deposit_amount: i128,
    pub min_deposit_amount: i128,
    pub max_withdrawal_amount: i128,
    pub global_cap: i128,
}

/// Whether checking a deposit of `amount` reaches the global-cap test, which adds it to the total.
pub open spec fn deposit_reaches_cap_test(params: RiskParameters, amount: i128) -> bool {
    amount >= params.min_deposit_amount && !(amount > params.max_deposit_amount
        && params.max_deposit_amount > 0)
}

/// The verdict of the deposit limits on a deposit of `amount` when `current_total` is deposited.
pub open spec fn spec_check_deposit(params: RiskParameters, current_total: i128, amount: i128) -> Result<
    (),
    RiskError,
> {
    if amount < params.min_deposit_amount {
        Err(RiskError::TooSmall)
    } else if amount > params.max_deposit_amount && params.max_deposit_amount > 0 {
        Err(RiskError::TooLarge)
    } else if current_total + amount > params.global_cap && params.global_cap > 0 {
        Err(RiskError::CapReached)
    } else {
        Ok(())
    }
}

/// The verdict of the withdrawal limit on a withdrawal of `amount`.
pub open spec fn spec_check_withdrawal(params: RiskParameters, amount: i128) -> Result<(), RiskError> {
    if amount > params.max_withdrawal_amount && params.max_withdrawal_amount > 0 {
        Err(RiskError::TooLarge)
    } else {
        Ok(())
    }
}

/// Deposit limits: minimum, maximum and global cap (a limit of zero or less is off).
pub fn check_deposit_limits(params: &RiskParameters, current_total: i128, amount: i128) -> (r: Result<(), RiskError>)
    requires
        deposit_reaches_cap_test(*params, amount) ==> i128::MIN <= current_total + amount <= i128::MAX,
    ensures
        r == spec_check_deposit(*params, current_total, amount),
{
    if amount < params.min_deposit_amount {
        return Err(RiskError::TooSmall);
    }
    if amount > params.max_deposit_amount && params.max_deposit_amount > 0 {
        return Err(RiskError::TooLarge);
    }
    if current_total + amount > params.global_cap && params.global_cap > 0 {
        return Err(RiskError::CapReached);
    }
    Ok(())
}

/// Withdrawal limit: the maximum withdrawal (zero or less is off).
pub fn check_withdrawal_limit(params: &RiskParameters, amount: i128) -> (r: Result<(), RiskError>)
    ensures
        r == spec_check_withdrawal(*params, amount),
{
    if amount > params.max_withdrawal_amount && params.max_withdrawal_amount > 0 {
        return Err(RiskError::TooLarge);
    }
    Ok(())
}

/// The stored state of the risk management contract.
#[derive(Clone, Debug, Eq, PartialEq, Structural)]
pub struct RiskManagement {
    pub admin: Option<Address>,
    pub params: Option<RiskParameters>,
    pub current_total_deposits: i128,
}

impl RiskManagement {
    /// A contract that has not been initialized.
    pub fn new() -> (r: Self)
        ensures
            r.admin is None,
            r.params is None,
            r.current_total_deposits == 0,
    {
        RiskManagement { admin: None, params: None, current_total_deposits: 0 }
    }

    pub fn initialize_risk(&mut self, admin: Address, params: RiskParameters)
        requires
            old(self).admin is None,
        ensures
            final(self).admin == Some(admin),
            final(self).params == Some(params),
            final(self).current_total_deposits == 0,
    {
        self.admin = Some(admin);
        self.params = Some(params);
        self.current_total_deposits = 0;
    }

    /// Replace the limits; `admin` is the authorized caller, who must be the stored admin.
    pub fn set_risk_params(&mut self, admin: Address, params: RiskParameters)
        requires
            old(self).admin == Some(admin),
        ensures
            final(self).params == Some(params),
            final(self).admin == old(self).admin,
            final(self).current_total_deposits == old(self).current_total_deposits,
    {
        self.params = Some(params);
    }

    pub fn get_risk_params(&self) -> (p: RiskParameters)
        requires
            self.params is Some,
        ensures
            Some(p) == self.params,
    {
        match self.params {
            Some(p) => p,
            None => {
                proof {
                    assert(false);
                }
                RiskParameters { max_deposit_amount: 0, min_deposit_amount: 0, max_withdrawal_amount: 0, global_cap: 0 }
            },
        }
    }

    pub fn check_deposit(&self, amount: i128) -> (r: Result<(), RiskError>)
        requires
            self.params is Some,
            deposit_reaches_cap_test(self.params->0, amount) ==> i128::MIN
                <= self.current_total_deposits + amount <= i128::MAX,
        ensures
            r == spec_check_deposit(self.params->0, self.current_total_deposits, amount),
    {
        let params = self.get_risk_params();
        check_deposit_limits(&params, self.current_total_deposits, amount)
    }

    pub fn check_withdrawal(&self, amount: i128) -> (r: Result<(), RiskError>)
        requires
            self.params is Some,
        ensures
            r == spec_check_withdrawal(self.params->0, amount),
    {
        let params = self.get_risk_params();
        check_withdrawal_limit(&params, amount)
    }

    pub fn update_total_deposits(&mut self, delta: i128)
        requires
            i128::MIN <= old(self).current_total_deposits + delta <= i128::MAX,
        ensures
            final(self).current_total_deposits == old(self).current_total_deposits + delta,
            final(self).admin == old(self).admin,
            final(self).params == old(self).params,
    {
        self.current_total_deposits = self.current_total_deposits + delta;
    }
}

/// An accepted deposit respects every configured limit: it is at least the
/// minimum, at most the maximum when one is set, and keeps the total within
/// the global cap when one is set.
pub proof fn lemma_accepted_deposit_within_limits(params: RiskParameters, current_total: i128, amount: i128)
    requires
        spec_check_deposit(params, current_total, amount) is Ok,
    ensures
        amount >= params.min_deposit_amount,
        params.max_deposit_amount > 0 ==> amount <= params.max_deposit_amount,
        params.global_cap > 0 ==> current_total + amount <= params.global_cap,
{
}

/// The deposit limits accept a deposit exactly when it respects every
/// configured limit, and the first limit broken names the refusal: below the
/// minimum is too small, above a set maximum too large, past a set global cap
/// the cap is reached.
pub proof fn lemma_deposit_verdict(params: RiskParameters, current_total: i128, amount: i128)
    ensures
        spec_check_deposit(params, current_total, amount) is Ok <==> (amount >= params.min_deposit_amount
            && (params.max_deposit_amount > 0 ==> amount <= params.max_deposit_amount) && (params.global_cap > 0
            ==> current_total + amount <= params.global_cap)),
        amount < params.min_deposit_amount ==> spec_check_deposit(params, current_total, amount) == Err::<(), RiskError>(
            RiskError::TooSmall,
        ),
        amount >= params.min_deposit_amount && params.max_deposit_amount > 0 && amount > params.max_deposit_amount
            ==> spec_check_deposit(params, current_total, amount) == Err::<(), RiskError>(RiskError::TooLarge),
        amount >= params.min_deposit_amount && (params.max_deposit_amount > 0 ==> amount <= params.max_deposit_amount)
            && params.global_cap > 0 && current_total + amount > params.global_cap ==> spec_check_deposit(
            params,
            current_total,
            amount,
        ) == Err::<(), RiskError>(RiskError::CapReached),
{
}

/// The withdrawal limit accepts a withdrawal exactly when no maximum is set
/// or the amount is within it.
pub proof fn lemma_withdrawal_verdict(params: RiskParameters, amount: i128)
    ensures
        spec_check_withdrawal(params, amount) is Ok <==> (params.max_withdrawal_amount > 0 ==> amount
            <= params.max_withdrawal_amount),
        spec_check_withdrawal(params, amount) is Err ==> spec_check_withdrawal(params, amount) == Err::<(), RiskError>(
            RiskError::TooLarge,
        ),
{
}

} // verus!
