use vstd::prelude::*;

use crate::interfaces::{Address, FeeType};
use crate::table::{AddressPair, TableEntry};
use crate::risk::{deposit_reaches_cap_test, spec_check_deposit, spec_check_withdrawal};
use crate::vault::contract::{AssetPool, FeeOutcome, MIN_REWARD_DISTRIBUTION, Position, Settlement, Transfer, VaultContract, fee_transfers, fits, lemma_fee_outcome_bounds, position_ok, spec_accrue, spec_collect_fee};
use crate::vault::math::{VaultError, checked_reward_index_increment, effective_params, lemma_increment_nonneg, spec_reward_index_increment, validate_positive_amount};
use crate::vault::sums::{asset_sum, lemma_asset_sum_absent, lemma_asset_sum_push, lemma_asset_sum_update, lemma_asset_within_sum};

verus! {

impl VaultContract {
    // -----------------------------------------------------------------------
    // Side assets
    // -----------------------------------------------------------------------

    pub(crate) fn get_asset_position(&self, user: &Address, asset: &Address) -> (p: Position)
        requires
            self.assets.map().contains_key(*asset),
        ensures
            p == self.asset_position(*user, *asset),
    {
        let key = AddressPair { first: *user, second: *asset };
        match self.asset_positions.get(&key) {
            Some(p) => *p,
            None => {
                let pool = match self.assets.get(asset) {
                    Some(pool) => *pool,
                    None => AssetPool { total_deposits: 0, reward_index: 0 },
                };
                Position { balance: 0, locked: 0, reward_index: pool.reward_index, pending_rewards: 0 }
            },
        }
    }

    pub(crate) fn get_pool(&self, asset: &Address) -> (pool: AssetPool)
        requires
            self.assets.map().contains_key(*asset),
        ensures
            pool == self.assets.map()[*asset],
    {
        match self.assets.get(asset) {
            Some(pool) => *pool,
            None => AssetPool { total_deposits: 0, reward_index: 0 },
        }
    }

    /// Store a side-asset position with its pool.
    pub(crate) fn store_asset_position(&mut self, user: Address, asset: Address, p: Position, pool: AssetPool)
        requires
            old(self).wf(),
            old(self).assets.map().contains_key(asset),
            pool.reward_index == old(self).assets.map()[asset].reward_index,
            position_ok(p, pool.reward_index, Seq::empty()),
            pool.total_deposits == old(self).assets.map()[asset].total_deposits - old(self).asset_position(user, asset).balance
                + p.balance,
        ensures
            final(self).wf(),
            final(self).asset_positions.map() == old(self).asset_positions.map().insert(
                AddressPair { first: user, second: asset },
                p,
            ),
            final(self).assets.map() == old(self).assets.map().insert(asset, pool),
            final(self).same_config(old(self)),
            final(self).same_main_book(old(self)),
            final(self).delegate_permissions == old(self).delegate_permissions,
            final(self).delegations == old(self).delegations,
            final(self).fee_ledger == old(self).fee_ledger,
    {
        let key = AddressPair { first: user, second: asset };
        let _ = self.asset_positions.len();
        let ghost before = self.asset_positions.entries_view();
        let ghost had = self.asset_positions.map().contains_key(key);
        let ghost idx = self.asset_positions.index_of(key);
        self.asset_positions.insert(key, p);
        self.assets.insert(asset, pool);
        proof {
            let e = TableEntry { key, value: p };
            let after = self.asset_positions.entries_view();
            assert forall|b: Address| #[trigger] self.assets.map().contains_key(b) implies self.assets.map()[b].reward_index
                >= 0 && self.assets.map()[b].total_deposits == asset_sum(after, b) by {
                if had {
                    assert(before[idx].value == old(self).asset_positions.map()[key]);
                    lemma_asset_sum_update(before, idx, e, b);
                } else {
                    lemma_asset_sum_push(before, e, b);
                }
            }
        }
    }

    /// Whether `asset` may be deposited.
    pub fn is_asset_supported(&self, asset: Address) -> (b: bool)
        ensures
            b == self.assets.map().contains_key(asset),
    {
        self.assets.contains(&asset)
    }

    /// Accept `asset` as a side asset, with an empty pool.
    pub fn add_asset(&mut self, admin: Address, asset: Address) -> (r: Result<(), VaultError>)
        requires
            old(self).wf(),
        ensures
            final(self).wf(),
            !old(self).initialized() ==> r == Err::<(), VaultError>(VaultError::NotInitialized) && *final(self) == *old(self),
            old(self).initialized() && old(self).admin != Some(admin) ==> r == Err::<(), VaultError>(VaultError::Unauthorized)
                && *final(self) == *old(self),
            old(self).admin == Some(admin) && old(self).assets.map().contains_key(asset) ==> r == Err::<(), VaultError>(
                VaultError::AssetAlreadySupported,
            ) && *final(self) == *old(self),
            old(self).admin == Some(admin) && !old(self).assets.map().contains_key(asset) ==> r is Ok
                && final(self).assets.map() == old(self).assets.map().insert(asset, AssetPool { total_deposits: 0, reward_index: 0 })
                && final(self).asset_positions == old(self).asset_positions && final(self).same_config(old(self))
                && final(self).same_main_book(old(self)) && final(self).delegate_permissions == old(self).delegate_permissions
                && final(self).delegations == old(self).delegations && final(self).fee_ledger == old(self).fee_ledger,
    {
        let stored = match self.admin {
            Some(a) => a,
            None => {
                return Err(VaultError::NotInitialized);
            },
        };
        if admin != stored {
            return Err(VaultError::Unauthorized);
        }
        if self.assets.contains(&asset) {
            return Err(VaultError::AssetAlreadySupported);
        }
        let _ = self.asset_positions.len();
        proof {
            let s = self.asset_positions.entries_view();
            assert forall|j: int| 0 <= j < s.len() implies #[trigger] s[j].key.second != asset by {
                assert(self.asset_positions.map().contains_key(s[j].key));
            }
            lemma_asset_sum_absent(s, asset);
        }
        self.assets.insert(asset, AssetPool { total_deposits: 0, reward_index: 0 });
        proof {
            assert forall|k: AddressPair| #[trigger] self.asset_positions.map().contains_key(k) implies self.assets.map().contains_key(
                k.second,
            ) && position_ok(self.asset_positions.map()[k], self.assets.map()[k.second].reward_index, Seq::empty()) by {
                assert(old(self).assets.map().contains_key(k.second));
                assert(k.second != asset);
            }
        }
        Ok(())
    }

    /// Why a side-asset deposit or withdrawal is refused before anything moves, if it is.
    pub open spec fn asset_refusal(&self, asset: Address, amount: i128, is_deposit: bool) -> Option<VaultError> {
        if self.paused {
            Some(VaultError::Paused)
        } else if !self.initialized() {
            Some(VaultError::NotInitialized)
        } else if amount < 0 {
            Some(VaultError::NegativeAmount)
        } else if amount == 0 {
            Some(VaultError::InvalidAmount)
        } else if !self.assets.map().contains_key(asset) {
            Some(VaultError::InvalidAddress)
        } else if is_deposit && spec_check_deposit(effective_params(self.risk_params), self.risk_total, amount) is Err {
            Some(VaultError::OperationLimitExceeded)
        } else if !is_deposit && spec_check_withdrawal(effective_params(self.risk_params), amount) is Err {
            Some(VaultError::OperationLimitExceeded)
        } else {
            None
        }
    }

    /// Whether a side-asset deposit of `amount` gets past the earlier
    /// refusals to the cap check, the point where `risk_total + amount` is formed.
    pub open spec fn asset_deposit_reaches_cap(&self, asset: Address, amount: i128) -> bool {
        &&& !self.paused
        &&& self.initialized()
        &&& amount > 0
        &&& self.assets.map().contains_key(asset)
        &&& deposit_reaches_cap_test(effective_params(self.risk_params), amount)
    }

    /// A side-asset deposit: the position and the pool's new total.
    pub open spec fn spec_deposit_asset(&self, user: Address, asset: Address, amount: i128) -> Result<(Position, i128), VaultError> {
        match self.asset_refusal(asset, amount, true) {
            Some(e) => Err(e),
            None => match spec_accrue(self.asset_position(user, asset), self.assets.map()[asset].reward_index) {
                Err(e) => Err(e),
                Ok(p) => if !fits(p.balance + amount) || !fits(self.assets.map()[asset].total_deposits + amount) {
                    Err(VaultError::MathOverflow)
                } else {
                    Ok((Position { balance: (p.balance + amount) as i128, ..p }, (self.assets.map()[asset].total_deposits + amount) as i128))
                },
            },
        }
    }

    /// Deposit `amount` of the side asset `asset` from `from` (the
    /// depositor's authorization is checked by the host). Once the deposit
    /// reaches the cap check, `risk_total + amount` must fit in an `i128`:
    /// that check forms the sum.
    pub fn deposit_asset(&mut self, from: Address, asset: Address, amount: i128) -> (r: Result<Settlement, VaultError>)
        requires
            old(self).wf(),
            old(self).asset_deposit_reaches_cap(asset, amount) ==> fits(old(self).risk_total + amount),
        ensures
            final(self).wf(),
            match old(self).spec_deposit_asset(from, asset, amount) {
                Err(e) => r is Err && r->Err_0 == e && *final(self) == *old(self),
                Ok((p, total)) => r is Ok && r->Ok_0.amount == amount && r->Ok_0.transfers@ == seq![
                    Transfer { token: asset, from, to: old(self).contract, amount },
                ] && final(self).asset_positions.map() == old(self).asset_positions.map().insert(
                    AddressPair { first: from, second: asset },
                    p,
                ) && final(self).assets.map() == old(self).assets.map().insert(
                    asset,
                    AssetPool { total_deposits: total, reward_index: old(self).assets.map()[asset].reward_index },
                ) && final(self).same_config(old(self)) && final(self).same_main_book(old(self))
                    && final(self).delegate_permissions == old(self).delegate_permissions && final(self).delegations
                    == old(self).delegations && final(self).fee_ledger == old(self).fee_ledger,
            },
    {
        if self.paused {
            return Err(VaultError::Paused);
        }
        if self.admin.is_none() {
            return Err(VaultError::NotInitialized);
        }
        match validate_positive_amount(amount) {
            Ok(()) => {},
            Err(e) => {
                return Err(e);
            },
        }
        if !self.assets.contains(&asset) {
            return Err(VaultError::InvalidAddress);
        }
        if self.check_deposit(amount).is_err() {
            return Err(VaultError::OperationLimitExceeded);
        }
        let pool = self.get_pool(&asset);
        let p0 = self.get_asset_position(&from, &asset);
        let p = match Self::accrue(p0, pool.reward_index) {
            Ok(p) => p,
            Err(e) => {
                return Err(e);
            },
        };
        let balance = match p.balance.checked_add(amount) {
            Some(b) => b,
            None => {
                return Err(VaultError::MathOverflow);
            },
        };
        let total = match pool.total_deposits.checked_add(amount) {
            Some(t) => t,
            None => {
                return Err(VaultError::MathOverflow);
            },
        };
        self.store_asset_position(from, asset, Position { balance, ..p }, AssetPool { total_deposits: total, ..pool });
        let mut transfers: Vec<Transfer> = Vec::new();
        transfers.push(Transfer { token: asset, from, to: self.contract, amount });
        Ok(Settlement { amount, transfers })
    }

    /// A side-asset withdrawal: the position and the pool's new total.
    pub open spec fn spec_withdraw_asset(&self, user: Address, asset: Address, amount: i128) -> Result<(Position, i128), VaultError> {
        match self.asset_refusal(asset, amount, false) {
            Some(e) => Err(e),
            None => match spec_accrue(self.asset_position(user, asset), self.assets.map()[asset].reward_index) {
                Err(e) => Err(e),
                Ok(p) => if p.balance < amount {
                    Err(VaultError::InsufficientBalance)
                } else {
                    Ok((Position { balance: (p.balance - amount) as i128, ..p }, (self.assets.map()[asset].total_deposits - amount) as i128))
                },
            },
        }
    }

    /// Withdraw `amount` of the side asset `asset` to `to` (the owner's
    /// authorization is checked by the host).
    pub fn withdraw_asset(&mut self, to: Address, asset: Address, amount: i128) -> (r: Result<Settlement, VaultError>)
        requires
            old(self).wf(),
        ensures
            final(self).wf(),
            match old(self).spec_withdraw_asset(to, asset, amount) {
                Err(e) => r is Err && r->Err_0 == e && *final(self) == *old(self),
                Ok((p, total)) => r is Ok && r->Ok_0.amount == amount && r->Ok_0.transfers@ == seq![
                    Transfer { token: asset, from: old(self).contract, to, amount },
                ] && final(self).asset_positions.map() == old(self).asset_positions.map().insert(
                    AddressPair { first: to, second: asset },
                    p,
                ) && final(self).assets.map() == old(self).assets.map().insert(
                    asset,
                    AssetPool { total_deposits: total, reward_index: old(self).assets.map()[asset].reward_index },
                ) && final(self).same_config(old(self)) && final(self).same_main_book(old(self))
                    && final(self).delegate_permissions == old(self).delegate_permissions && final(self).delegations
                    == old(self).delegations && final(self).fee_ledger == old(self).fee_ledger,
            },
    {
        if self.paused {
            return Err(VaultError::Paused);
        }
        if self.admin.is_none() {
            return Err(VaultError::NotInitialized);
        }
        match validate_positive_amount(amount) {
            Ok(()) => {},
            Err(e) => {
                return Err(e);
            },
        }
        if !self.assets.contains(&asset) {
            return Err(VaultError::InvalidAddress);
        }
        if self.check_withdrawal(amount).is_err() {
            return Err(VaultError::OperationLimitExceeded);
        }
        let pool = self.get_pool(&asset);
        let p0 = self.get_asset_position(&to, &asset);
        let p = match Self::accrue(p0, pool.reward_index) {
            Ok(p) => p,
            Err(e) => {
                return Err(e);
            },
        };
        if p.balance < amount {
            return Err(VaultError::InsufficientBalance);
        }
        let key = AddressPair { first: to, second: asset };
        let n = self.asset_positions.len();
        proof {
            let i = choose|i: int| 0 <= i < n && #[trigger] self.asset_positions.entries_view()[i].key == key;
            assert forall|j: int| 0 <= j < self.asset_positions.entries_view().len() implies #[trigger] self.asset_positions.entries_view()[j].value.balance
                >= 0 by {
                assert(self.asset_positions.map().contains_key(self.asset_positions.entries_view()[j].key));
            }
            lemma_asset_within_sum(self.asset_positions.entries_view(), i, asset);
        }
        let total = pool.total_deposits - amount;
        self.store_asset_position(to, asset, Position { balance: p.balance - amount, ..p }, AssetPool { total_deposits: total, ..pool });
        let mut transfers: Vec<Transfer> = Vec::new();
        transfers.push(Transfer { token: asset, from: self.contract, to, amount });
        Ok(Settlement { amount, transfers })
    }

    /// Why a side-asset reward distribution is refused before anything moves, if it is.
    pub open spec fn asset_distribution_refusal(&self, admin: Address, asset: Address, amount: i128) -> Option<VaultError> {
        match self.distribution_refusal(amount) {
            Some(e) => Some(e),
            None => if !self.assets.map().contains_key(asset) {
                Some(VaultError::InvalidAddress)
            } else if self.admin != Some(admin) {
                Some(VaultError::Unauthorized)
            } else {
                None
            },
        }
    }

    /// The pool's reward index after `admin` pays in `amount` for `asset`,
    /// less the reward fee, and the fee charged.
    pub open spec fn spec_distribute_asset(&self, admin: Address, asset: Address, amount: i128, now: u64) -> Result<(i128, FeeOutcome), VaultError> {
        match self.asset_distribution_refusal(admin, asset, amount) {
            Some(e) => Err(e),
            None => match spec_collect_fee(self.fee_config, self.fee_ledger, FeeType::Reward, admin, self.reward_token, amount, now) {
                Err(e) => Err(e),
                Ok(fee) => match spec_reward_index_increment(fee.net_amount, self.assets.map()[asset].total_deposits) {
                    Err(e) => Err(e),
                    Ok(inc) => if !fits(self.assets.map()[asset].reward_index + inc) {
                        Err(VaultError::MathOverflow)
                    } else {
                        Ok(((self.assets.map()[asset].reward_index + inc) as i128, fee))
                    },
                },
            },
        }
    }

    /// The admin pays `amount` of the reward token in for the holders of
    /// `asset`; what remains after the reward fee raises that pool's reward
    /// index, which is returned.
    pub fn distribute_rewards_for_asset(&mut self, admin: Address, asset: Address, amount: i128, now: u64) -> (r: Result<
        Settlement,
        VaultError,
    >)
        requires
            old(self).wf(),
        ensures
            final(self).wf(),
            match old(self).spec_distribute_asset(admin, asset, amount, now) {
                Err(e) => r is Err && r->Err_0 == e && *final(self) == *old(self),
                Ok((index, fee)) => r is Ok && r->Ok_0.amount == index && r->Ok_0.transfers@ == seq![
                    Transfer { token: old(self).reward_token, from: admin, to: old(self).contract, amount },
                ] + fee_transfers(old(self).fee_config, old(self).reward_token, old(self).contract, fee)
                    && final(self).assets.map() == old(self).assets.map().insert(
                    asset,
                    AssetPool { total_deposits: old(self).assets.map()[asset].total_deposits, reward_index: index },
                ) && final(self).asset_positions == old(self).asset_positions && final(self).fee_ledger == fee.ledger
                    && final(self).same_config(old(self)) && final(self).same_main_book(old(self))
                    && final(self).delegate_permissions == old(self).delegate_permissions && final(self).delegations
                    == old(self).delegations,
            },
    {
        let stored = match self.admin {
            Some(a) => a,
            None => {
                return Err(VaultError::NotInitialized);
            },
        };
        match validate_positive_amount(amount) {
            Ok(()) => {},
            Err(e) => {
                return Err(e);
            },
        }
        if amount < MIN_REWARD_DISTRIBUTION {
            return Err(VaultError::InsufficientRewardAmount);
        }
        if !self.assets.contains(&asset) {
            return Err(VaultError::InvalidAddress);
        }
        if admin != stored {
            return Err(VaultError::Unauthorized);
        }
        let token = self.reward_token;
        let fee = match self.collect_fee(FeeType::Reward, admin, token, amount, now) {
            Ok(f) => f,
            Err(e) => {
                return Err(e);
            },
        };
        let pool = self.get_pool(&asset);
        proof {
            lemma_fee_outcome_bounds(self.fee_config, self.fee_ledger, FeeType::Reward, admin, token, amount, now);
            lemma_increment_nonneg(fee.net_amount, pool.total_deposits);
        }
        let inc = match checked_reward_index_increment(fee.net_amount, pool.total_deposits) {
            Ok(i) => i,
            Err(e) => {
                return Err(e);
            },
        };
        let index = match pool.reward_index.checked_add(inc) {
            Some(i) => i,
            None => {
                return Err(VaultError::MathOverflow);
            },
        };
        let mut transfers: Vec<Transfer> = Vec::new();
        transfers.push(Transfer { token, from: admin, to: self.contract, amount });
        self.push_fee_transfer(&mut transfers, token, fee);
        self.assets.insert(asset, AssetPool { reward_index: index, ..pool });
        self.fee_ledger = fee.ledger;
        proof {
            assert forall|k: AddressPair| #[trigger] self.asset_positions.map().contains_key(k) implies self.assets.map().contains_key(
                k.second,
            ) && position_ok(self.asset_positions.map()[k], self.assets.map()[k.second].reward_index, Seq::empty()) by {
                assert(old(self).assets.map().contains_key(k.second));
            }
        }
        Ok(Settlement { amount: index, transfers })
    }

    /// A claim of `user`'s rewards in `asset` when the contract holds
    /// `contract_balance` of the reward token: the position to store (none for
    /// a user without one) and the amount paid.
    pub open spec fn spec_claim_asset(&self, user: Address, asset: Address, contract_balance: i128) -> Result<(Option<Position>, i128), VaultError> {
        match self.claim_refusal(true) {
            Some(e) => Err(e),
            None => if !self.assets.map().contains_key(asset) {
                Err(VaultError::InvalidAddress)
            } else if !self.asset_positions.map().contains_key(AddressPair { first: user, second: asset }) {
                Ok((None, 0))
            } else {
                match spec_accrue(self.asset_position(user, asset), self.assets.map()[asset].reward_index) {
                    Err(e) => Err(e),
                    Ok(p) => if p.pending_rewards <= 0 {
                        Ok((Some(p), 0))
                    } else if contract_balance < p.pending_rewards {
                        Err(VaultError::InsufficientContractBalance)
                    } else {
                        Ok((Some(Position { pending_rewards: 0, ..p }), p.pending_rewards))
                    },
                }
            },
        }
    }

    /// Pay `user` the rewards credited to their `asset` position;
    /// `contract_balance` is what the contract holds of the reward token (the
    /// user's authorization is checked by the host).
    pub fn claim_rewards_for_asset(&mut self, user: Address, asset: Address, contract_balance: i128) -> (r: Result<
        Settlement,
        VaultError,
    >)
        requires
            old(self).wf(),
        ensures
            final(self).wf(),
            match old(self).spec_claim_asset(user, asset, contract_balance) {
                Err(e) => r is Err && r->Err_0 == e && *final(self) == *old(self),
                Ok((np, amount)) => r is Ok && r->Ok_0.amount == amount && r->Ok_0.transfers@ == (if amount > 0 {
                    seq![Transfer { token: old(self).reward_token, from: old(self).contract, to: user, amount }]
                } else {
                    Seq::empty()
                }) && match np {
                    None => *final(self) == *old(self),
                    Some(p) => final(self).asset_positions.map() == old(self).asset_positions.map().insert(
                        AddressPair { first: user, second: asset },
                        p,
                    ) && final(self).assets.map() == old(self).assets.map() && final(self).same_config(old(self))
                        && final(self).same_main_book(old(self)) && final(self).delegate_permissions
                        == old(self).delegate_permissions && final(self).delegations == old(self).delegations
                        && final(self).fee_ledger == old(self).fee_ledger,
                },
            },
    {
        if self.paused {
            return Err(VaultError::Paused);
        }
        if self.admin.is_none() {
            return Err(VaultError::NotInitialized);
        }
        if !self.assets.contains(&asset) {
            return Err(VaultError::InvalidAddress);
        }
        let key = AddressPair { first: user, second: asset };
        let stored = match self.asset_positions.get(&key) {
            Some(p) => *p,
            None => {
                return Ok(Settlement { amount: 0, transfers: Vec::new() });
            },
        };
        let pool = self.get_pool(&asset);
        let p = match Self::accrue(stored, pool.reward_index) {
            Ok(p) => p,
            Err(e) => {
                return Err(e);
            },
        };
        let amount = p.pending_rewards;
        if amount <= 0 {
            self.store_asset_position(user, asset, p, pool);
            proof {
                assert(self.assets.map() =~= old(self).assets.map());
            }
            return Ok(Settlement { amount: 0, transfers: Vec::new() });
        }
        if contract_balance < amount {
            return Err(VaultError::InsufficientContractBalance);
        }
        self.store_asset_position(user, asset, Position { pending_rewards: 0, ..p }, pool);
        proof {
            assert(self.assets.map() =~= old(self).assets.map());
        }
        let mut transfers: Vec<Transfer> = Vec::new();
        transfers.push(Transfer { token: self.reward_token, from: self.contract, to: user, amount });
        Ok(Settlement { amount, transfers })
    }
}

} // verus!
