use vstd::prelude::*;

use crate::interfaces::Address;
use crate::table::AddressPair;
use crate::vault::contract::{DELEGATE_PERM_CLAIM, DELEGATE_PERM_DEPOSIT, DELEGATE_PERM_WITHDRAW, Delegation, PERMISSION_CLAIM, PERMISSION_DEPOSIT, PERMISSION_LOCK, PERMISSION_UNLOCK, PERMISSION_WITHDRAW, Settlement, Transfer, VaultContract, fee_transfers, fits};
use crate::vault::math::VaultError;
use crate::vault::sums::{delegation_count, delegations_of};

verus! {

impl VaultContract {
    // -----------------------------------------------------------------------
    // Delegates named by an owner
    // -----------------------------------------------------------------------

    /// The rights `owner` gave `delegate` (none: 0).
    pub open spec fn delegate_rights(&self, owner: Address, delegate: Address) -> u32 {
        if self.delegate_permissions.map().contains_key(AddressPair { first: owner, second: delegate }) {
            self.delegate_permissions.map()[AddressPair { first: owner, second: delegate }]
        } else {
            0
        }
    }

    /// Whether `delegate` holds the right `perm` over `owner`'s position.
    pub open spec fn delegate_may(&self, owner: Address, delegate: Address, perm: u32) -> bool {
        self.delegate_rights(owner, delegate) & perm != 0
    }

    pub(crate) fn delegate_allows(&self, owner: Address, delegate: Address, perm: u32) -> (b: bool)
        ensures
            b == self.delegate_may(owner, delegate, perm),
    {
        let rights: u32 = match self.delegate_permissions.get(&AddressPair { first: owner, second: delegate }) {
            Some(r) => *r,
            None => 0,
        };
        rights & perm != 0
    }

    /// Give `delegate` the rights `permissions` (a non-empty set of bits) over
    /// `owner`'s position, replacing earlier ones (the owner's authorization
    /// is checked by the host).
    pub fn authorize_delegate(&mut self, owner: Address, delegate: Address, permissions: u32) -> (r: Result<(), VaultError>)
        requires
            old(self).wf(),
        ensures
            final(self).wf(),
            !old(self).initialized() ==> r == Err::<(), VaultError>(VaultError::NotInitialized) && *final(self) == *old(self),
            old(self).initialized() && permissions == 0 ==> r == Err::<(), VaultError>(VaultError::InvalidAddress) && *final(self)
                == *old(self),
            old(self).initialized() && permissions != 0 ==> r is Ok && final(self).delegate_permissions.map()
                == old(self).delegate_permissions.map().insert(AddressPair { first: owner, second: delegate }, permissions)
                && final(self).delegations == old(self).delegations && final(self).same_config(old(self))
                && final(self).same_main_book(old(self)) && final(self).assets == old(self).assets
                && final(self).asset_positions == old(self).asset_positions && final(self).fee_ledger == old(self).fee_ledger,
    {
        if self.admin.is_none() {
            return Err(VaultError::NotInitialized);
        }
        if permissions == 0 {
            return Err(VaultError::InvalidAddress);
        }
        self.delegate_permissions.insert(AddressPair { first: owner, second: delegate }, permissions);
        Ok(())
    }

    /// Take back every right `owner` gave `delegate` (the owner's
    /// authorization is checked by the host).
    pub fn revoke_delegate(&mut self, owner: Address, delegate: Address) -> (r: Result<(), VaultError>)
        requires
            old(self).wf(),
        ensures
            final(self).wf(),
            !old(self).initialized() ==> r == Err::<(), VaultError>(VaultError::NotInitialized) && *final(self) == *old(self),
            old(self).initialized() ==> r is Ok && final(self).delegate_permissions.map()
                == old(self).delegate_permissions.map().remove(AddressPair { first: owner, second: delegate })
                && final(self).delegations == old(self).delegations && final(self).same_config(old(self))
                && final(self).same_main_book(old(self)) && final(self).assets == old(self).assets
                && final(self).asset_positions == old(self).asset_positions && final(self).fee_ledger == old(self).fee_ledger,
    {
        if self.admin.is_none() {
            return Err(VaultError::NotInitialized);
        }
        let _ = self.delegate_permissions.remove(&AddressPair { first: owner, second: delegate });
        Ok(())
    }

    /// The rights `owner` gave `delegate`.
    pub fn delegate_permissions(&self, owner: Address, delegate: Address) -> (r: Result<u32, VaultError>)
        ensures
            r == if self.initialized() {
                Ok::<u32, VaultError>(self.delegate_rights(owner, delegate))
            } else {
                Err(VaultError::NotInitialized)
            },
    {
        if self.admin.is_none() {
            return Err(VaultError::NotInitialized);
        }
        match self.delegate_permissions.get(&AddressPair { first: owner, second: delegate }) {
            Some(r) => Ok(*r),
            None => Ok(0),
        }
    }

    /// A delegate deposits `amount` for `owner`, paying it themselves.
    ///
    /// As with `deposit`, the owner's position is credited once, with the
    /// amount net of the fee, and the risk total grows by the gross `amount`;
    /// once the deposit reaches the cap check, `risk_total + amount` must fit
    /// in an `i128`, as that check forms it.
    pub fn deposit_as_delegate(&mut self, owner: Address, delegate: Address, amount: i128, now: u64) -> (r: Result<
        Settlement,
        VaultError,
    >)
        requires
            old(self).wf(),
            old(self).deposit_reaches_cap(amount, old(self).delegate_may(owner, delegate, DELEGATE_PERM_DEPOSIT))
                ==> fits(old(self).risk_total + amount),
        ensures
            final(self).wf(),
            match old(self).spec_deposit_as(owner, amount, now, old(self).delegate_may(owner, delegate, DELEGATE_PERM_DEPOSIT), true) {
                Err(e) => r is Err && r->Err_0 == e && *final(self) == *old(self),
                Ok((p, total, fee)) => r is Ok && r->Ok_0.amount == fee.net_amount && r->Ok_0.transfers@ == seq![
                    Transfer { token: old(self).deposit_token, from: delegate, to: old(self).contract, amount },
                ] + fee_transfers(old(self).fee_config, old(self).deposit_token, old(self).contract, fee)
                    && final(self).positions.map() == old(self).positions.map().insert(owner, p)
                    && final(self).total_deposits == total && final(self).fee_ledger == fee.ledger
                    && final(self).risk_total == old(self).risk_total + amount && final(self).reward_index
                    == old(self).reward_index && final(self).same_settings(old(self)) && final(self).same_locks_and_penalties(
                    old(self),
                ),
            },
    {
        let ok = self.delegate_allows(owner, delegate, DELEGATE_PERM_DEPOSIT);
        self.do_deposit(owner, delegate, amount, now, ok, true)
    }

    /// A delegate withdraws `amount` of `owner`'s unlocked tokens to `to`.
    pub fn withdraw_as_delegate(&mut self, owner: Address, delegate: Address, to: Address, amount: i128) -> (r: Result<
        Settlement,
        VaultError,
    >)
        requires
            old(self).wf(),
            old(self).spec_withdraw_as(owner, amount, old(self).delegate_may(owner, delegate, DELEGATE_PERM_WITHDRAW), true)
                is Ok ==> fits(old(self).risk_total - amount),
        ensures
            final(self).wf(),
            match old(self).spec_withdraw_as(owner, amount, old(self).delegate_may(owner, delegate, DELEGATE_PERM_WITHDRAW), true) {
                Err(e) => r is Err && r->Err_0 == e && *final(self) == *old(self),
                Ok((p, total)) => r is Ok && r->Ok_0.amount == amount && r->Ok_0.transfers@ == seq![
                    Transfer { token: old(self).deposit_token, from: old(self).contract, to, amount },
                ] && final(self).positions.map() == old(self).positions.map().insert(owner, p)
                    && final(self).total_deposits == total && final(self).fee_ledger == old(self).fee_ledger
                    && final(self).risk_total == old(self).risk_total - amount && final(self).reward_index
                    == old(self).reward_index && final(self).same_settings(old(self)) && final(self).same_locks_and_penalties(
                    old(self),
                ),
            },
    {
        let ok = self.delegate_allows(owner, delegate, DELEGATE_PERM_WITHDRAW);
        self.do_withdraw(owner, to, amount, ok, true)
    }

    /// A delegate claims `owner`'s rewards, which are paid to the owner.
    pub fn claim_rewards_as_delegate(&mut self, owner: Address, delegate: Address, contract_balance: i128) -> (r: Result<
        Settlement,
        VaultError,
    >)
        requires
            old(self).wf(),
        ensures
            final(self).wf(),
            match old(self).spec_claim_as(owner, contract_balance, old(self).delegate_may(owner, delegate, DELEGATE_PERM_CLAIM)) {
                Err(e) => r is Err && r->Err_0 == e && *final(self) == *old(self),
                Ok(outcome) => r is Ok && Self::claim_effect(old(self), final(self), owner, owner, outcome, r->Ok_0),
            },
    {
        let ok = self.delegate_allows(owner, delegate, DELEGATE_PERM_CLAIM);
        self.do_claim(owner, owner, contract_balance, ok)
    }

    // -----------------------------------------------------------------------
    // Operators named by a delegator
    // -----------------------------------------------------------------------

    /// Whether `operator` holds the right `perm` over `delegator`'s positions
    /// at the ledger time `now`.
    pub open spec fn operator_may(&self, delegator: Address, operator: Address, perm: u32, now: u64) -> bool {
        let key = AddressPair { first: delegator, second: operator };
        &&& self.delegations.map().contains_key(key)
        &&& self.delegations.map()[key].expires_at == 0 || now < self.delegations.map()[key].expires_at
        &&& self.delegations.map()[key].permissions & perm != 0
    }

    pub(crate) fn operator_allows(&self, delegator: Address, operator: Address, perm: u32, now: u64) -> (b: bool)
        ensures
            b == self.operator_may(delegator, operator, perm, now),
    {
        match self.delegations.get(&AddressPair { first: delegator, second: operator }) {
            Some(d) => (d.expires_at == 0 || now < d.expires_at) && d.permissions & perm != 0,
            None => false,
        }
    }

    pub(crate) fn count_delegations(&self, delegator: Address) -> (n: usize)
        ensures
            n == delegation_count(self.delegations.entries_view(), delegator),
    {
        let len = self.delegations.len();
        let ghost s = self.delegations.entries_view();
        let mut count: usize = 0;
        let mut i: usize = 0;
        while i < len
            invariant
                0 <= i <= len,
                len == s.len(),
                s == self.delegations.entries_view(),
                count <= i,
                count == delegation_count(s.take(i as int), delegator),
            decreases len - i,
        {
            let e = self.delegations.entry_at(i);
            proof {
                assert(s.take(i + 1).drop_last() =~= s.take(i as int));
                assert(s.take(i + 1).last() == s[i as int]);
            }
            if e.key.first == delegator {
                count = count + 1;
            }
            i = i + 1;
        }
        proof {
            assert(s.take(len as int) =~= s);
        }
        count
    }

    /// Name `operator` with the rights `permissions` over `delegator`'s
    /// positions until `expires_at` (0: without end), replacing an earlier
    /// delegation to the same operator; a new operator counts against the
    /// limit (the delegator's authorization is checked by the host).
    pub fn delegate(&mut self, delegator: Address, operator: Address, permissions: u32, expires_at: u64, now: u64) -> (r:
        Result<(), VaultError>)
        requires
            old(self).wf(),
        ensures
            final(self).wf(),
            r is Err ==> *final(self) == *old(self),
            !old(self).initialized() ==> r == Err::<(), VaultError>(VaultError::NotInitialized),
            old(self).initialized() && operator == delegator ==> r == Err::<(), VaultError>(VaultError::CannotDelegateToSelf),
            old(self).initialized() && operator != delegator && expires_at != 0 && expires_at <= now ==> r == Err::<
                (),
                VaultError,
            >(VaultError::InvalidExpiration),
            old(self).initialized() && operator != delegator && (expires_at == 0 || expires_at > now)
                && !old(self).delegations.map().contains_key(AddressPair { first: delegator, second: operator })
                && delegation_count(old(self).delegations.entries_view(), delegator) >= old(self).max_delegations
                ==> r == Err::<(), VaultError>(VaultError::MaxDelegationsExceeded),
            old(self).initialized() && operator != delegator && (expires_at == 0 || expires_at > now) && (
            old(self).delegations.map().contains_key(AddressPair { first: delegator, second: operator }) || delegation_count(
                old(self).delegations.entries_view(),
                delegator,
            ) < old(self).max_delegations) ==> r is Ok && final(self).delegations.map() == old(self).delegations.map().insert(
                AddressPair { first: delegator, second: operator },
                Delegation { delegator, operator, permissions, expires_at },
            ) && final(self).delegate_permissions == old(self).delegate_permissions && final(self).same_config(old(self))
                && final(self).same_main_book(old(self)) && final(self).assets == old(self).assets
                && final(self).asset_positions == old(self).asset_positions && final(self).fee_ledger == old(self).fee_ledger,
    {
        if self.admin.is_none() {
            return Err(VaultError::NotInitialized);
        }
        if operator == delegator {
            return Err(VaultError::CannotDelegateToSelf);
        }
        if expires_at != 0 && expires_at <= now {
            return Err(VaultError::InvalidExpiration);
        }
        let key = AddressPair { first: delegator, second: operator };
        let exists = self.delegations.contains(&key);
        let count = self.count_delegations(delegator);
        if !exists && count as u64 >= self.max_delegations as u64 {
            return Err(VaultError::MaxDelegationsExceeded);
        }
        self.delegations.insert(key, Delegation { delegator, operator, permissions, expires_at });
        Ok(())
    }

    /// Withdraw the delegation to `operator` (the delegator's authorization
    /// is checked by the host).
    pub fn revoke_delegation(&mut self, delegator: Address, operator: Address) -> (r: Result<(), VaultError>)
        requires
            old(self).wf(),
        ensures
            final(self).wf(),
            !old(self).initialized() ==> r == Err::<(), VaultError>(VaultError::NotInitialized) && *final(self) == *old(self),
            old(self).initialized() ==> r is Ok && final(self).delegations.map() == old(self).delegations.map().remove(
                AddressPair { first: delegator, second: operator },
            ) && final(self).delegate_permissions == old(self).delegate_permissions && final(self).same_config(old(self))
                && final(self).same_main_book(old(self)) && final(self).assets == old(self).assets
                && final(self).asset_positions == old(self).asset_positions && final(self).fee_ledger == old(self).fee_ledger,
    {
        if self.admin.is_none() {
            return Err(VaultError::NotInitialized);
        }
        let _ = self.delegations.remove(&AddressPair { first: delegator, second: operator });
        Ok(())
    }

    /// The delegation from `delegator` to `operator`, if any.
    pub fn get_delegation(&self, delegator: Address, operator: Address) -> (r: Option<Delegation>)
        ensures
            r == if self.delegations.map().contains_key(AddressPair { first: delegator, second: operator }) {
                Some(self.delegations.map()[AddressPair { first: delegator, second: operator }])
            } else {
                None
            },
    {
        match self.delegations.get(&AddressPair { first: delegator, second: operator }) {
            Some(d) => Some(*d),
            None => None,
        }
    }

    /// Every delegation granted by `delegator`, in the order they were first made.
    pub fn get_delegations(&self, delegator: Address) -> (r: Vec<Delegation>)
        ensures
            r@ == delegations_of(self.delegations.entries_view(), delegator),
    {
        let len = self.delegations.len();
        let ghost s = self.delegations.entries_view();
        let mut out: Vec<Delegation> = Vec::new();
        let mut i: usize = 0;
        while i < len
            invariant
                0 <= i <= len,
                len == s.len(),
                s == self.delegations.entries_view(),
                out@ == delegations_of(s.take(i as int), delegator),
            decreases len - i,
        {
            let e = self.delegations.entry_at(i);
            proof {
                assert(s.take(i + 1).drop_last() =~= s.take(i as int));
                assert(s.take(i + 1).last() == s[i as int]);
            }
            if e.key.first == delegator {
                out.push(e.value);
            }
            i = i + 1;
        }
        proof {
            assert(s.take(len as int) =~= s);
        }
        out
    }

    /// Set how many operators each delegator may name (the admin's
    /// authorization is checked by the host).
    pub fn set_max_delegations(&mut self, max: u32) -> (r: Result<(), VaultError>)
        requires
            old(self).wf(),
        ensures
            final(self).wf(),
            !old(self).initialized() ==> r == Err::<(), VaultError>(VaultError::NotInitialized) && *final(self) == *old(self),
            old(self).initialized() ==> r is Ok && *final(self) == (VaultContract { max_delegations: max, ..*old(self) }),
    {
        if self.admin.is_none() {
            return Err(VaultError::NotInitialized);
        }
        self.max_delegations = max;
        Ok(())
    }

    /// An operator deposits `amount` for the delegator, paying it
    /// themselves; neither the risk limits nor the deposit fee apply.
    pub fn delegated_deposit(&mut self, delegator: Address, operator: Address, amount: i128, now: u64) -> (r: Result<
        Settlement,
        VaultError,
    >)
        requires
            old(self).wf(),
        ensures
            final(self).wf(),
            match old(self).spec_deposit_as(delegator, amount, now, old(self).operator_may(delegator, operator, PERMISSION_DEPOSIT, now), false) {
                Err(e) => r is Err && r->Err_0 == e && *final(self) == *old(self),
                Ok((p, total, fee)) => r is Ok && r->Ok_0.amount == amount && r->Ok_0.transfers@ == seq![
                    Transfer { token: old(self).deposit_token, from: operator, to: old(self).contract, amount },
                ] && final(self).positions.map() == old(self).positions.map().insert(delegator, p)
                    && final(self).total_deposits == total && final(self).fee_ledger == old(self).fee_ledger
                    && final(self).risk_total == old(self).risk_total && final(self).reward_index == old(self).reward_index
                    && final(self).same_settings(old(self)) && final(self).same_locks_and_penalties(old(self)),
            },
    {
        let ok = self.operator_allows(delegator, operator, PERMISSION_DEPOSIT, now);
        let r = self.do_deposit(delegator, operator, amount, now, ok, false);
        proof {
            if r is Ok {
                assert(r->Ok_0.transfers@ =~= seq![
                    Transfer { token: old(self).deposit_token, from: operator, to: old(self).contract, amount },
                ]);
            }
        }
        r
    }

    /// An operator withdraws `amount` of the delegator's unlocked tokens,
    /// which are paid to the operator; the risk limits do not apply.
    pub fn delegated_withdraw(&mut self, delegator: Address, operator: Address, amount: i128, now: u64) -> (r: Result<
        Settlement,
        VaultError,
    >)
        requires
            old(self).wf(),
        ensures
            final(self).wf(),
            match old(self).spec_withdraw_as(delegator, amount, old(self).operator_may(delegator, operator, PERMISSION_WITHDRAW, now), false) {
                Err(e) => r is Err && r->Err_0 == e && *final(self) == *old(self),
                Ok((p, total)) => r is Ok && r->Ok_0.amount == amount && r->Ok_0.transfers@ == seq![
                    Transfer { token: old(self).deposit_token, from: old(self).contract, to: operator, amount },
                ] && final(self).positions.map() == old(self).positions.map().insert(delegator, p)
                    && final(self).total_deposits == total && final(self).fee_ledger == old(self).fee_ledger
                    && final(self).risk_total == old(self).risk_total && final(self).reward_index == old(self).reward_index
                    && final(self).same_settings(old(self)) && final(self).same_locks_and_penalties(old(self)),
            },
    {
        let ok = self.operator_allows(delegator, operator, PERMISSION_WITHDRAW, now);
        self.do_withdraw(delegator, operator, amount, ok, false)
    }

    /// An operator locks `amount` of the delegator's free tokens.
    pub fn delegated_lock(&mut self, delegator: Address, operator: Address, amount: i128, duration_seconds: u64, now: u64) -> (r:
        Result<u64, VaultError>)
        requires
            old(self).wf(),
        ensures
            final(self).wf(),
            match old(self).spec_lock_as(delegator, amount, duration_seconds, now, old(self).operator_may(delegator, operator, PERMISSION_LOCK, now)) {
                Err(e) => r is Err && r->Err_0 == e && *final(self) == *old(self),
                Ok((p, entry)) => r == Ok::<u64, VaultError>(entry.unlock_at) && final(self).positions.map()
                    == old(self).positions.map().insert(delegator, p) && final(self).user_locks(delegator)
                    == old(self).user_locks(delegator).push(entry) && (forall|u: Address|
                    u != delegator ==> final(self).user_locks(u) == old(self).user_locks(u)) && final(self).total_deposits
                    == old(self).total_deposits && final(self).reward_index == old(self).reward_index
                    && final(self).same_settings(old(self)) && final(self).total_penalties == old(self).total_penalties
                    && final(self).penalties_paid == old(self).penalties_paid && final(self).risk_total == old(self).risk_total
                    && final(self).fee_ledger == old(self).fee_ledger,
            },
    {
        let ok = self.operator_allows(delegator, operator, PERMISSION_LOCK, now);
        self.do_lock(delegator, amount, duration_seconds, now, ok)
    }

    /// An operator releases up to `limit` of the delegator's due locks.
    pub fn delegated_unlock_expired(&mut self, delegator: Address, operator: Address, limit: u32, now: u64) -> (r: Result<
        i128,
        VaultError,
    >)
        requires
            old(self).wf(),
        ensures
            final(self).wf(),
            match old(self).spec_unlock_as(delegator, limit, now, old(self).operator_may(delegator, operator, PERMISSION_UNLOCK, now)) {
                Err(e) => r is Err && r->Err_0 == e && *final(self) == *old(self),
                Ok((p, locks, released)) => r == Ok::<i128, VaultError>(released) && if old(self).positions.map().contains_key(
                    delegator,
                ) {
                    final(self).positions.map() == old(self).positions.map().insert(delegator, p) && final(self).user_locks(
                        delegator,
                    ) == locks && (forall|u: Address| u != delegator ==> final(self).user_locks(u) == old(self).user_locks(u))
                        && final(self).total_deposits == old(self).total_deposits && final(self).reward_index
                        == old(self).reward_index && final(self).same_settings(old(self)) && final(self).total_penalties
                        == old(self).total_penalties && final(self).penalties_paid == old(self).penalties_paid
                        && final(self).risk_total == old(self).risk_total && final(self).fee_ledger == old(self).fee_ledger
                } else {
                    released == 0 && *final(self) == *old(self)
                },
            },
    {
        let ok = self.operator_allows(delegator, operator, PERMISSION_UNLOCK, now);
        self.do_unlock(delegator, limit, now, ok)
    }

    /// An operator claims the delegator's rewards, which are paid to the operator.
    pub fn delegated_claim_rewards(&mut self, delegator: Address, operator: Address, contract_balance: i128, now: u64) -> (r:
        Result<Settlement, VaultError>)
        requires
            old(self).wf(),
        ensures
            final(self).wf(),
            match old(self).spec_claim_as(delegator, contract_balance, old(self).operator_may(delegator, operator, PERMISSION_CLAIM, now)) {
                Err(e) => r is Err && r->Err_0 == e && *final(self) == *old(self),
                Ok(outcome) => r is Ok && Self::claim_effect(old(self), final(self), delegator, operator, outcome, r->Ok_0),
            },
    {
        let ok = self.operator_allows(delegator, operator, PERMISSION_CLAIM, now);
        self.do_claim(delegator, operator, contract_balance, ok)
    }
}

} // verus!
