use vstd::prelude::*;

use crate::interfaces::{Address, FeeType};
use crate::vault::contract::{FeeOutcome, MIN_REWARD_DISTRIBUTION, Position, Settlement, Transfer, VaultContract, fee_transfers, fits, lemma_fee_outcome_bounds, spec_accrue, spec_collect_fee};
use crate::vault::math::{VaultError, checked_reward_index_increment, lemma_increment_nonneg, spec_reward_index_increment, validate_positive_amount};

verus! {

impl VaultContract {
    // -----------------------------------------------------------------------
    // Rewards
    // -----------------------------------------------------------------------

    /// Why a reward distribution of `amount` is refused before anything moves, if it is.
    pub open spec fn distribution_refusal(&self, amount: i128) -> Option<VaultError> {
        if !self.initialized() {
            Some(VaultError::NotInitialized)
        } else if amount < 0 {
            Some(VaultError::NegativeAmount)
        } else if amount == 0 {
            Some(VaultError::InvalidAmount)
        } else if amount < MIN_REWARD_DISTRIBUTION {
            Some(VaultError::InsufficientRewardAmount)
        } else {
            None
        }
    }

    /// The reward index after the admin pays `amount` of rewards in, less
    /// the reward fee, and the fee charged.
    pub open spec fn spec_distribute(&self, amount: i128, now: u64) -> Result<(i128, FeeOutcome), VaultError> {
        match self.distribution_refusal(amount) {
            Some(e) => Err(e),
            None => match spec_collect_fee(self.fee_config, self.fee_ledger, FeeType::Reward, self.admin->0, self.reward_token, amount, now) {
                Err(e) => Err(e),
                Ok(fee) => match spec_reward_index_increment(fee.net_amount, self.total_deposits) {
                    Err(e) => Err(e),
                    Ok(inc) => if !fits(self.reward_index + inc) {
                        Err(VaultError::MathOverflow)
                    } else {
                        Ok(((self.reward_index + inc) as i128, fee))
                    },
                },
            },
        }
    }

    /// The admin pays `amount` of the reward token in; what remains after the
    /// reward fee is spread over all deposits by raising the reward index,
    /// which is returned (the admin's authorization is checked by the host).
    pub fn distribute_rewards(&mut self, amount: i128, now: u64) -> (r: Result<Settlement, VaultError>)
        requires
            old(self).wf(),
        ensures
            final(self).wf(),
            match old(self).spec_distribute(amount, now) {
                Err(e) => r is Err && r->Err_0 == e && *final(self) == *old(self),
                Ok((index, fee)) => r is Ok && r->Ok_0.amount == index && r->Ok_0.transfers@ == seq![
                    Transfer { token: old(self).reward_token, from: old(self).admin->0, to: old(self).contract, amount },
                ] + fee_transfers(old(self).fee_config, old(self).reward_token, old(self).contract, fee) && *final(self) == (
                VaultContract { reward_index: index, fee_ledger: fee.ledger, ..*old(self) }),
            },
    {
        let admin = match self.admin {
            Some(a) => a,
            None => {
                return Err(VaultError::NotInitialized);
            },
        };
        match validate_positive_amount(amount) {
            Ok(()) => {},
            Err(e) => {
                return Err(e);
            },
        }
        if amount < MIN_REWARD_DISTRIBUTION {
            return Err(VaultError::InsufficientRewardAmount);
        }
        let token = self.reward_token;
        let fee = match self.collect_fee(FeeType::Reward, admin, token, amount, now) {
            Ok(f) => f,
            Err(e) => {
                return Err(e);
            },
        };
        proof {
            lemma_fee_outcome_bounds(self.fee_config, self.fee_ledger, FeeType::Reward, admin, token, amount, now);
            lemma_increment_nonneg(fee.net_amount, self.total_deposits);
        }
        let inc = match checked_reward_index_increment(fee.net_amount, self.total_deposits) {
            Ok(i) => i,
            Err(e) => {
                return Err(e);
            },
        };
        let index = match self.reward_index.checked_add(inc) {
            Some(i) => i,
            None => {
                return Err(VaultError::MathOverflow);
            },
        };
        let mut transfers: Vec<Transfer> = Vec::new();
        transfers.push(Transfer { token, from: admin, to: self.contract, amount });
        self.push_fee_transfer(&mut transfers, token, fee);
        self.reward_index = index;
        self.fee_ledger = fee.ledger;
        Ok(Settlement { amount: index, transfers })
    }

    /// Why a claim is refused before anything moves, if it is.
    pub open spec fn claim_refusal(&self, authorized: bool) -> Option<VaultError> {
        if self.paused {
            Some(VaultError::Paused)
        } else if !self.initialized() {
            Some(VaultError::NotInitialized)
        } else if !authorized {
            Some(VaultError::Unauthorized)
        } else {
            None
        }
    }

    /// A claim of `user`'s rewards when the contract holds `contract_balance`
    /// of the reward token: the position to store (none for a user without
    /// one) and the amount paid.
    pub open spec fn spec_claim(&self, user: Address, contract_balance: i128) -> Result<(Option<Position>, i128), VaultError> {
        self.spec_claim_as(user, contract_balance, true)
    }

    /// A claim made by an acting account that may (`authorized`) or may not claim for `user`.
    pub open spec fn spec_claim_as(&self, user: Address, contract_balance: i128, authorized: bool) -> Result<
        (Option<Position>, i128),
        VaultError,
    > {
        match self.claim_refusal(authorized) {
            Some(e) => Err(e),
            None => if !self.positions.map().contains_key(user) {
                Ok((None, 0))
            } else {
                match spec_accrue(self.position(user), self.reward_index) {
                    Err(e) => Err(e),
                    Ok(p) => if p.pending_rewards <= 0 {
                        Ok((Some(p), 0))
                    } else if contract_balance < p.pending_rewards {
                        Err(VaultError::InsufficientContractBalance)
                    } else {
                        Ok((Some(Position { pending_rewards: 0, ..p }), p.pending_rewards))
                    },
                }
            },
        }
    }

    pub open spec fn claim_effect(old_v: &Self, new_v: &Self, user: Address, payee: Address, outcome: (Option<Position>, i128), r: Settlement) -> bool {
        &&& r.amount == outcome.1
        &&& r.transfers@ == if outcome.1 > 0 {
            seq![Transfer { token: old_v.reward_token, from: old_v.contract, to: payee, amount: outcome.1 }]
        } else {
            Seq::empty()
        }
        &&& match outcome.0 {
            None => *new_v == *old_v,
            Some(p) => new_v.positions.map() == old_v.positions.map().insert(user, p) && new_v.total_deposits
                == old_v.total_deposits && new_v.reward_index == old_v.reward_index && new_v.fee_ledger
                == old_v.fee_ledger && new_v.risk_total == old_v.risk_total && new_v.same_settings(old_v)
                && new_v.same_locks_and_penalties(old_v),
        }
    }

    pub(crate) fn do_claim(&mut self, user: Address, payee: Address, contract_balance: i128, authorized: bool) -> (r: Result<
        Settlement,
        VaultError,
    >)
        requires
            old(self).wf(),
        ensures
            final(self).wf(),
            match old(self).spec_claim_as(user, contract_balance, authorized) {
                Err(e) => r is Err && r->Err_0 == e && *final(self) == *old(self),
                Ok(outcome) => r is Ok && Self::claim_effect(old(self), final(self), user, payee, outcome, r->Ok_0),
            },
    {
        if self.paused {
            return Err(VaultError::Paused);
        }
        if self.admin.is_none() {
            return Err(VaultError::NotInitialized);
        }
        if !authorized {
            return Err(VaultError::Unauthorized);
        }
        let stored = match self.positions.get(&user) {
            Some(p) => *p,
            None => {
                return Ok(Settlement { amount: 0, transfers: Vec::new() });
            },
        };
        let p = match Self::accrue(stored, self.reward_index) {
            Ok(p) => p,
            Err(e) => {
                return Err(e);
            },
        };
        let amount = p.pending_rewards;
        if amount <= 0 {
            let total = self.total_deposits;
            self.store_position(user, p, total);
            return Ok(Settlement { amount: 0, transfers: Vec::new() });
        }
        if contract_balance < amount {
            return Err(VaultError::InsufficientContractBalance);
        }
        let mut transfers: Vec<Transfer> = Vec::new();
        transfers.push(Transfer { token: self.reward_token, from: self.contract, to: payee, amount });
        let total = self.total_deposits;
        self.store_position(user, Position { pending_rewards: 0, ..p }, total);
        Ok(Settlement { amount, transfers })
    }

    /// Pay `user` the rewards credited to them; `contract_balance` is what the
    /// contract holds of the reward token (the user's authorization is
    /// checked by the host).
    pub fn claim_rewards(&mut self, user: Address, contract_balance: i128) -> (r: Result<Settlement, VaultError>)
        requires
            old(self).wf(),
        ensures
            final(self).wf(),
            match old(self).spec_claim(user, contract_balance) {
                Err(e) => r is Err && r->Err_0 == e && *final(self) == *old(self),
                Ok(outcome) => r is Ok && Self::claim_effect(old(self), final(self), user, user, outcome, r->Ok_0),
            },
    {
        self.do_claim(user, user, contract_balance, true)
    }

    /// The rewards `user` could claim now.
    pub fn pending_rewards(&self, user: Address) -> (r: Result<i128, VaultError>)
        requires
            self.wf(),
        ensures
            r == match spec_accrue(self.position(user), self.reward_index) {
                Ok(p) => Ok::<i128, VaultError>(p.pending_rewards),
                Err(e) => Err(e),
            },
    {
        let p = self.get_position(&user);
        match Self::accrue(p, self.reward_index) {
            Ok(p) => Ok(p.pending_rewards),
            Err(e) => Err(e),
        }
    }

}

} // verus!
