use vstd::prelude::*;

use crate::interfaces::{Address, FeeConfig};
use crate::table::AddressPair;
use crate::risk::spec_check_withdrawal;
use crate::vault::contract::{LockEntry, Position, VaultContract, spec_accrue};
use crate::vault::math::{VaultError, effective_params, spec_accrued_rewards};
use crate::vault::sums::balance_sum;

verus! {

impl VaultContract {
    // -----------------------------------------------------------------------
    // Queries
    // -----------------------------------------------------------------------

    pub open spec fn query<T>(&self, value: T) -> Result<T, VaultError> {
        if self.initialized() {
            Ok(value)
        } else {
            Err(VaultError::NotInitialized)
        }
    }

    /// `user`'s deposited tokens, locked ones included.
    pub fn balance(&self, user: Address) -> (r: Result<i128, VaultError>)
        ensures
            r == self.query(self.position(user).balance),
    {
        if self.admin.is_none() {
            return Err(VaultError::NotInitialized);
        }
        Ok(self.get_position(&user).balance)
    }

    /// `user`'s tokens that are not locked.
    pub fn liquid_balance(&self, user: Address) -> (r: Result<i128, VaultError>)
        requires
            self.wf(),
        ensures
            r == self.query((self.position(user).balance - self.position(user).locked) as i128),
    {
        if self.admin.is_none() {
            return Err(VaultError::NotInitialized);
        }
        let p = self.get_position(&user);
        Ok(p.balance - p.locked)
    }

    /// `user`'s locked tokens.
    pub fn locked_balance(&self, user: Address) -> (r: Result<i128, VaultError>)
        ensures
            r == self.query(self.position(user).locked),
    {
        if self.admin.is_none() {
            return Err(VaultError::NotInitialized);
        }
        Ok(self.get_position(&user).locked)
    }

    /// `user`'s locks, oldest first.
    pub fn user_locks_of(&self, user: Address) -> (r: Vec<LockEntry>)
        ensures
            r@ == self.user_locks(user),
    {
        self.copy_locks(&user)
    }

    pub fn total_deposits(&self) -> (r: Result<i128, VaultError>)
        ensures
            r == self.query(self.total_deposits),
    {
        if self.admin.is_none() {
            return Err(VaultError::NotInitialized);
        }
        Ok(self.total_deposits)
    }

    pub fn reward_index(&self) -> (r: Result<i128, VaultError>)
        ensures
            r == self.query(self.reward_index),
    {
        if self.admin.is_none() {
            return Err(VaultError::NotInitialized);
        }
        Ok(self.reward_index)
    }

    pub fn vesting_period(&self) -> (r: Result<u64, VaultError>)
        ensures
            r == self.query(self.vesting_period),
    {
        if self.admin.is_none() {
            return Err(VaultError::NotInitialized);
        }
        Ok(self.vesting_period)
    }

    pub fn admin(&self) -> (r: Result<Address, VaultError>)
        ensures
            r == match self.admin {
                Some(a) => Ok::<Address, VaultError>(a),
                None => Err(VaultError::NotInitialized),
            },
    {
        match self.admin {
            Some(a) => Ok(a),
            None => Err(VaultError::NotInitialized),
        }
    }

    pub fn pending_admin(&self) -> (r: Result<Option<Address>, VaultError>)
        ensures
            r == self.query(self.pending_admin),
    {
        if self.admin.is_none() {
            return Err(VaultError::NotInitialized);
        }
        Ok(self.pending_admin)
    }

    pub fn deposit_token(&self) -> (r: Result<Address, VaultError>)
        ensures
            r == self.query(self.deposit_token),
    {
        if self.admin.is_none() {
            return Err(VaultError::NotInitialized);
        }
        Ok(self.deposit_token)
    }

    pub fn reward_token(&self) -> (r: Result<Address, VaultError>)
        ensures
            r == self.query(self.reward_token),
    {
        if self.admin.is_none() {
            return Err(VaultError::NotInitialized);
        }
        Ok(self.reward_token)
    }

    pub fn penalty_rate(&self) -> (r: Result<u32, VaultError>)
        ensures
            r == self.query(self.penalty_rate_bps),
    {
        if self.admin.is_none() {
            return Err(VaultError::NotInitialized);
        }
        Ok(self.penalty_rate_bps)
    }

    pub fn total_penalties(&self) -> (r: Result<i128, VaultError>)
        ensures
            r == self.query(self.total_penalties),
    {
        if self.admin.is_none() {
            return Err(VaultError::NotInitialized);
        }
        Ok(self.total_penalties)
    }

    /// The penalties `user` has paid on early withdrawals.
    pub fn user_penalties(&self, user: Address) -> (r: Result<i128, VaultError>)
        ensures
            r == self.query(self.penalties_paid_by(user)),
    {
        if self.admin.is_none() {
            return Err(VaultError::NotInitialized);
        }
        match self.penalties_paid.get(&user) {
            Some(v) => Ok(*v),
            None => Ok(0),
        }
    }

    /// Why a query on a side asset fails, if it does.
    pub open spec fn asset_query<T>(&self, asset: Address, value: T) -> Result<T, VaultError> {
        if !self.initialized() {
            Err(VaultError::NotInitialized)
        } else if !self.assets.map().contains_key(asset) {
            Err(VaultError::InvalidAddress)
        } else {
            Ok(value)
        }
    }

    pub fn balance_of_asset(&self, user: Address, asset: Address) -> (r: Result<i128, VaultError>)
        ensures
            r == self.asset_query(asset, self.asset_position(user, asset).balance),
    {
        if self.admin.is_none() {
            return Err(VaultError::NotInitialized);
        }
        if !self.assets.contains(&asset) {
            return Err(VaultError::InvalidAddress);
        }
        Ok(self.get_asset_position(&user, &asset).balance)
    }

    pub fn total_deposits_of_asset(&self, asset: Address) -> (r: Result<i128, VaultError>)
        ensures
            r == self.asset_query(asset, self.assets.map()[asset].total_deposits),
    {
        if self.admin.is_none() {
            return Err(VaultError::NotInitialized);
        }
        if !self.assets.contains(&asset) {
            return Err(VaultError::InvalidAddress);
        }
        Ok(self.get_pool(&asset).total_deposits)
    }

    pub fn reward_index_of_asset(&self, asset: Address) -> (r: Result<i128, VaultError>)
        ensures
            r == self.asset_query(asset, self.assets.map()[asset].reward_index),
    {
        if self.admin.is_none() {
            return Err(VaultError::NotInitialized);
        }
        if !self.assets.contains(&asset) {
            return Err(VaultError::InvalidAddress);
        }
        Ok(self.get_pool(&asset).reward_index)
    }

    /// The rewards `user` could claim now in `asset`.
    pub fn pending_rewards_for_asset(&self, user: Address, asset: Address) -> (r: Result<i128, VaultError>)
        requires
            self.wf(),
        ensures
            r == match self.asset_query(asset, 0i128) {
                Err(e) => Err(e),
                Ok(_) => match spec_accrue(self.asset_position(user, asset), self.assets.map()[asset].reward_index) {
                    Ok(p) => Ok::<i128, VaultError>(p.pending_rewards),
                    Err(e) => Err(e),
                },
            },
    {
        if self.admin.is_none() {
            return Err(VaultError::NotInitialized);
        }
        if !self.assets.contains(&asset) {
            return Err(VaultError::InvalidAddress);
        }
        let pool = self.get_pool(&asset);
        let p = self.get_asset_position(&user, &asset);
        match Self::accrue(p, pool.reward_index) {
            Ok(p) => Ok(p.pending_rewards),
            Err(e) => Err(e),
        }
    }

    /// Configure the protocol fee that deposits and reward distributions pay.
    pub fn set_fee_config(&mut self, config: Option<FeeConfig>)
        requires
            old(self).wf(),
        ensures
            final(self).wf(),
            *final(self) == (VaultContract { fee_config: config, ..*old(self) }),
    {
        self.fee_config = config;
    }
}

/// In a well-formed vault, which every operation keeps well-formed, the total
/// of deposits is the sum of the users' balances and no position has more
/// locked than it holds.
pub proof fn lemma_total_is_sum_of_balances(v: VaultContract)
    requires
        v.wf(),
    ensures
        v.total_deposits == balance_sum(v.positions.entries_view()),
        forall|u: Address|
            v.positions.map().contains_key(u) ==> 0 <= #[trigger] v.positions.map()[u].locked <= v.positions.map()[u].balance,
{
}

/// The early-exit penalty is a part of the amount taken out: never negative
/// and never more than the amount, so the user is paid `amount - penalty >= 0`.
pub proof fn lemma_penalty_within_amount(amount: i128, rate_bps: u32)
    requires
        amount >= 0,
        rate_bps <= 10_000,
    ensures
        VaultContract::spec_penalty(amount, rate_bps) matches Ok(p) ==> 0 <= p <= amount,
{
    assert(0 <= amount * rate_bps <= amount * 10_000) by (nonlinear_arith)
        requires
            amount >= 0,
            rate_bps <= 10_000,
    ;
}

/// The early-exit penalty is the configured rate of the amount, rounded
/// down: `penalty * 10_000 <= amount * rate < (penalty + 1) * 10_000`.
pub proof fn lemma_penalty_is_rate_of_amount(amount: i128, rate_bps: u32)
    requires
        amount >= 0,
    ensures
        VaultContract::spec_penalty(amount, rate_bps) matches Ok(p) ==> p * 10_000 <= amount * rate_bps < (p + 1)
            * 10_000,
{
    let x: int = amount * rate_bps;
    assert(x >= 0) by (nonlinear_arith)
        requires
            amount >= 0,
            rate_bps >= 0,
            x == amount * rate_bps,
    ;
    let q: int = x / 10_000;
    assert(q * 10_000 <= x < (q + 1) * 10_000) by (nonlinear_arith)
        requires
            x >= 0,
            q == x / 10_000,
    ;
}

/// Rewards are paid once: after a claim has paid a user, claiming again right
/// away pays nothing.
pub proof fn lemma_claim_pays_once(v1: VaultContract, v2: VaultContract, user: Address, balance1: i128, balance2: i128)
    requires
        v1.wf(),
        v1.spec_claim(user, balance1) matches Ok((Some(p), _)),
        v2.positions.map() == v1.positions.map().insert(user, v1.spec_claim(user, balance1)->Ok_0.0->0),
        v2.reward_index == v1.reward_index,
        v2.same_settings(&v1),
    ensures
        v2.spec_claim(user, balance2) matches Ok((_, paid)) && paid == 0,
{
    let p = v1.spec_claim(user, balance1)->Ok_0.0->0;
    assert(v2.position(user) == p);
    assert(p.reward_index == v2.reward_index);
    assert(spec_accrued_rewards(p.balance, 0) == Ok::<i128, VaultError>(0)) by {
        assert(p.balance * 0 == 0);
    }
}

/// Depositing an amount and withdrawing it again, with no protocol fee
/// configured, leaves the owner's balance and the vault's total as they were
/// before the deposit.
pub proof fn lemma_deposit_then_withdraw(v1: VaultContract, v2: VaultContract, user: Address, amount: i128, now: u64)
    requires
        v1.wf(),
        v1.fee_config is None,
        v1.spec_deposit(user, amount, now) is Ok,
        v2.positions.map() == v1.positions.map().insert(user, v1.spec_deposit(user, amount, now)->Ok_0.0),
        v2.total_deposits == v1.spec_deposit(user, amount, now)->Ok_0.1,
        v2.reward_index == v1.reward_index,
        v2.same_settings(&v1),
        v2.same_locks_and_penalties(&v1),
        spec_check_withdrawal(effective_params(v1.risk_params), amount) is Ok,
    ensures
        v2.spec_withdraw(user, amount) matches Ok((p, total)) && p.balance == v1.position(user).balance && total
            == v1.total_deposits,
{
    let p = v1.spec_deposit(user, amount, now)->Ok_0.0;
    assert(v2.position(user) == p);
    assert(p.reward_index == v2.reward_index);
    assert(spec_accrued_rewards(p.balance, 0) == Ok::<i128, VaultError>(0)) by {
        assert(p.balance * 0 == 0);
    }
}

/// A position that has just been brought up to the reward index earns
/// nothing more until the index moves: its claimable rewards are its pending ones.
proof fn lemma_accrue_at_current_index(p: Position, index: i128)
    requires
        p.reward_index == index,
    ensures
        spec_accrue(p, index) == Ok::<Position, VaultError>(p),
{
    assert(p.balance * 0 == 0);
    assert(spec_accrued_rewards(p.balance, 0) == Ok::<i128, VaultError>(0));
}

/// A deposit keeps the rewards its owner has earned: what `pending_rewards`
/// reports for the owner after a successful deposit is what it reported
/// before, and the owner's balance grows by the amount credited.
pub proof fn lemma_deposit_keeps_pending_rewards(
    v1: VaultContract,
    v2: VaultContract,
    owner: Address,
    amount: i128,
    now: u64,
    authorized: bool,
    limited: bool,
)
    requires
        v1.wf(),
        v1.spec_deposit_as(owner, amount, now, authorized, limited) is Ok,
        v2.positions.map() == v1.positions.map().insert(owner, v1.spec_deposit_as(owner, amount, now, authorized, limited)->Ok_0.0),
        v2.reward_index == v1.reward_index,
    ensures
        spec_accrue(v1.position(owner), v1.reward_index) matches Ok(before) && spec_accrue(
            v2.position(owner),
            v2.reward_index,
        ) matches Ok(after) && after.pending_rewards == before.pending_rewards && after.balance == before.balance
            + v1.spec_deposit_as(owner, amount, now, authorized, limited)->Ok_0.2.net_amount,
{
    let p = v1.spec_deposit_as(owner, amount, now, authorized, limited)->Ok_0.0;
    assert(v2.position(owner) == p);
    lemma_accrue_at_current_index(p, v2.reward_index);
}

/// A withdrawal keeps the rewards its owner has earned: what `pending_rewards`
/// reports for the owner after a successful withdrawal is what it reported
/// before, and the owner's balance shrinks by the amount withdrawn.
pub proof fn lemma_withdraw_keeps_pending_rewards(
    v1: VaultContract,
    v2: VaultContract,
    owner: Address,
    amount: i128,
    authorized: bool,
    limited: bool,
)
    requires
        v1.wf(),
        v1.spec_withdraw_as(owner, amount, authorized, limited) is Ok,
        v2.positions.map() == v1.positions.map().insert(owner, v1.spec_withdraw_as(owner, amount, authorized, limited)->Ok_0.0),
        v2.reward_index == v1.reward_index,
    ensures
        spec_accrue(v1.position(owner), v1.reward_index) matches Ok(before) && spec_accrue(
            v2.position(owner),
            v2.reward_index,
        ) matches Ok(after) && after.pending_rewards == before.pending_rewards && after.balance == before.balance
            - amount,
{
    let p = v1.spec_withdraw_as(owner, amount, authorized, limited)->Ok_0.0;
    assert(v2.position(owner) == p);
    lemma_accrue_at_current_index(p, v2.reward_index);
}

/// A side-asset deposit keeps the rewards its owner has earned in that
/// asset: what `pending_rewards_for_asset` reports after a successful
/// deposit is what it reported before, and the balance grows by the amount.
pub proof fn lemma_asset_deposit_keeps_pending_rewards(
    v1: VaultContract,
    v2: VaultContract,
    user: Address,
    asset: Address,
    amount: i128,
)
    requires
        v1.wf(),
        v1.spec_deposit_asset(user, asset, amount) is Ok,
        v2.asset_positions.map() == v1.asset_positions.map().insert(
            AddressPair { first: user, second: asset },
            v1.spec_deposit_asset(user, asset, amount)->Ok_0.0,
        ),
        v2.assets.map().contains_key(asset),
        v2.assets.map()[asset].reward_index == v1.assets.map()[asset].reward_index,
    ensures
        spec_accrue(v1.asset_position(user, asset), v1.assets.map()[asset].reward_index) matches Ok(before)
            && spec_accrue(v2.asset_position(user, asset), v2.assets.map()[asset].reward_index) matches Ok(after)
            && after.pending_rewards == before.pending_rewards && after.balance == before.balance + amount,
{
    let p = v1.spec_deposit_asset(user, asset, amount)->Ok_0.0;
    assert(v2.asset_position(user, asset) == p);
    lemma_accrue_at_current_index(p, v2.assets.map()[asset].reward_index);
}

/// A side-asset withdrawal keeps the rewards its owner has earned in that
/// asset, and the balance shrinks by the amount.
pub proof fn lemma_asset_withdraw_keeps_pending_rewards(
    v1: VaultContract,
    v2: VaultContract,
    user: Address,
    asset: Address,
    amount: i128,
)
    requires
        v1.wf(),
        v1.spec_withdraw_asset(user, asset, amount) is Ok,
        v2.asset_positions.map() == v1.asset_positions.map().insert(
            AddressPair { first: user, second: asset },
            v1.spec_withdraw_asset(user, asset, amount)->Ok_0.0,
        ),
        v2.assets.map().contains_key(asset),
        v2.assets.map()[asset].reward_index == v1.assets.map()[asset].reward_index,
    ensures
        spec_accrue(v1.asset_position(user, asset), v1.assets.map()[asset].reward_index) matches Ok(before)
            && spec_accrue(v2.asset_position(user, asset), v2.assets.map()[asset].reward_index) matches Ok(after)
            && after.pending_rewards == before.pending_rewards && after.balance == before.balance - amount,
{
    let p = v1.spec_withdraw_asset(user, asset, amount)->Ok_0.0;
    assert(v2.asset_position(user, asset) == p);
    lemma_accrue_at_current_index(p, v2.assets.map()[asset].reward_index);
}

} // verus!
