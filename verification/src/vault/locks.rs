use vstd::prelude::*;

use crate::interfaces::Address;
use crate::table::TableEntry;
use crate::vault::contract::{BPS_DENOMINATOR, LockEntry, MAX_UNLOCK_LIMIT, Position, Settlement, Transfer, VaultContract, fits, position_ok, spec_accrue};
use crate::vault::math::{VaultError, validate_positive_amount};
use crate::vault::sums::{lemma_balance_sum_update, lemma_balance_within_sum, lemma_consume, lemma_lock_sum_nonneg, lemma_lock_sum_push, lemma_release, lock_sum, spec_consume, spec_release};

verus! {

impl VaultContract {
    // -----------------------------------------------------------------------
    // Locks
    // -----------------------------------------------------------------------

    pub(crate) fn copy_locks(&self, user: &Address) -> (v: Vec<LockEntry>)
        ensures
            v@ == self.user_locks(*user),
    {
        let mut v: Vec<LockEntry> = Vec::new();
        match self.locks.get(user) {
            Some(src) => {
                let mut i: usize = 0;
                while i < src.len()
                    invariant
                        0 <= i <= src@.len(),
                        v@ == src@.take(i as int),
                    decreases src.len() - i,
                {
                    v.push(src[i]);
                    i = i + 1;
                    assert(v@ =~= src@.take(i as int));
                }
                assert(src@.take(src@.len() as int) =~= src@);
            },
            None => {},
        }
        v
    }

    /// Store a position whose balance is unchanged together with its locks.
    pub(crate) fn store_locks(&mut self, user: Address, p: Position, locks: Vec<LockEntry>)
        requires
            old(self).wf(),
            old(self).positions.map().contains_key(user),
            p.balance == old(self).position(user).balance,
            position_ok(p, old(self).reward_index, locks@),
        ensures
            final(self).wf(),
            final(self).positions.map() == old(self).positions.map().insert(user, p),
            final(self).user_locks(user) == locks@,
            forall|u: Address| u != user ==> final(self).user_locks(u) == old(self).user_locks(u),
            final(self).total_deposits == old(self).total_deposits,
            final(self).reward_index == old(self).reward_index,
            final(self).same_settings(old(self)),
            final(self).total_penalties == old(self).total_penalties,
            final(self).penalties_paid == old(self).penalties_paid,
            final(self).risk_total == old(self).risk_total,
            final(self).fee_ledger == old(self).fee_ledger,
    {
        let _ = self.positions.len();
        let ghost before = self.positions.entries_view();
        let ghost idx = self.positions.index_of(user);
        let ghost lv = locks@;
        self.positions.insert(user, p);
        self.locks.insert(user, locks);
        proof {
            assert(before[idx].value == old(self).positions.map()[user]);
            lemma_balance_sum_update(before, idx, TableEntry { key: user, value: p });
            assert(self.user_locks(user) == lv);
            assert forall|u: Address| #[trigger] self.positions.map().contains_key(u) implies position_ok(
                self.positions.map()[u],
                self.reward_index,
                self.user_locks(u),
            ) by {
                if u != user {
                    assert(self.user_locks(u) == old(self).user_locks(u));
                }
            }
        }
    }

    /// Why a lock is refused before anything moves, if it is.
    pub open spec fn lock_refusal(&self, amount: i128, duration_seconds: u64, authorized: bool) -> Option<VaultError> {
        if self.paused {
            Some(VaultError::Paused)
        } else if !self.initialized() {
            Some(VaultError::NotInitialized)
        } else if amount < 0 {
            Some(VaultError::NegativeAmount)
        } else if amount == 0 {
            Some(VaultError::InvalidAmount)
        } else if duration_seconds == 0 {
            Some(VaultError::InvalidLockDuration)
        } else if !authorized {
            Some(VaultError::Unauthorized)
        } else {
            None
        }
    }

    /// A lock of `amount` of `user`'s free tokens until `now + duration_seconds`.
    pub open spec fn spec_lock(&self, user: Address, amount: i128, duration_seconds: u64, now: u64) -> Result<(Position, LockEntry), VaultError> {
        self.spec_lock_as(user, amount, duration_seconds, now, true)
    }

    /// A lock made by an acting account that may (`authorized`) or may not lock for `user`.
    pub open spec fn spec_lock_as(&self, user: Address, amount: i128, duration_seconds: u64, now: u64, authorized: bool) -> Result<
        (Position, LockEntry),
        VaultError,
    > {
        match self.lock_refusal(amount, duration_seconds, authorized) {
            Some(e) => Err(e),
            None => if now + duration_seconds > u64::MAX {
                Err(VaultError::MathOverflow)
            } else if amount > self.position(user).balance - self.position(user).locked {
                Err(VaultError::InsufficientBalance)
            } else {
                Ok((
                    Position { locked: (self.position(user).locked + amount) as i128, ..self.position(user) },
                    LockEntry { amount, unlock_at: (now + duration_seconds) as u64 },
                ))
            },
        }
    }

    pub(crate) fn do_lock(&mut self, from: Address, amount: i128, duration_seconds: u64, now: u64, authorized: bool) -> (r: Result<
        u64,
        VaultError,
    >)
        requires
            old(self).wf(),
        ensures
            final(self).wf(),
            match old(self).spec_lock_as(from, amount, duration_seconds, now, authorized) {
                Err(e) => r is Err && r->Err_0 == e && *final(self) == *old(self),
                Ok((p, entry)) => r == Ok::<u64, VaultError>(entry.unlock_at) && final(self).positions.map()
                    == old(self).positions.map().insert(from, p) && final(self).user_locks(from) == old(self).user_locks(
                    from,
                ).push(entry) && (forall|u: Address| u != from ==> final(self).user_locks(u) == old(self).user_locks(u))
                    && final(self).total_deposits == old(self).total_deposits && final(self).reward_index
                    == old(self).reward_index && final(self).same_settings(old(self)) && final(self).total_penalties
                    == old(self).total_penalties && final(self).penalties_paid == old(self).penalties_paid
                    && final(self).risk_total == old(self).risk_total && final(self).fee_ledger == old(self).fee_ledger,
            },
    {
        if self.paused {
            return Err(VaultError::Paused);
        }
        if self.admin.is_none() {
            return Err(VaultError::NotInitialized);
        }
        match validate_positive_amount(amount) {
            Ok(()) => {},
            Err(e) => {
                return Err(e);
            },
        }
        if duration_seconds == 0 {
            return Err(VaultError::InvalidLockDuration);
        }
        if !authorized {
            return Err(VaultError::Unauthorized);
        }
        let unlock_at = match now.checked_add(duration_seconds) {
            Some(t) => t,
            None => {
                return Err(VaultError::MathOverflow);
            },
        };
        let p = self.get_position(&from);
        if amount > p.balance - p.locked {
            return Err(VaultError::InsufficientBalance);
        }
        let entry = LockEntry { amount, unlock_at };
        let mut locks = self.copy_locks(&from);
        let ghost before = locks@;
        locks.push(entry);
        proof {
            lemma_lock_sum_push(before, entry);
        }
        let np = Position { locked: p.locked + amount, ..p };
        self.store_locks(from, np, locks);
        Ok(unlock_at)
    }

    /// Lock `amount` of `from`'s free tokens for `duration_seconds` from the
    /// ledger time `now`; returns when they come due (the owner's
    /// authorization is checked by the host).
    pub fn lock(&mut self, from: Address, amount: i128, duration_seconds: u64, now: u64) -> (r: Result<u64, VaultError>)
        requires
            old(self).wf(),
        ensures
            final(self).wf(),
            match old(self).spec_lock(from, amount, duration_seconds, now) {
                Err(e) => r is Err && r->Err_0 == e && *final(self) == *old(self),
                Ok((p, entry)) => r == Ok::<u64, VaultError>(entry.unlock_at) && final(self).positions.map()
                    == old(self).positions.map().insert(from, p) && final(self).user_locks(from) == old(self).user_locks(
                    from,
                ).push(entry) && (forall|u: Address| u != from ==> final(self).user_locks(u) == old(self).user_locks(u))
                    && final(self).total_deposits == old(self).total_deposits && final(self).reward_index
                    == old(self).reward_index && final(self).same_settings(old(self)) && final(self).total_penalties
                    == old(self).total_penalties && final(self).penalties_paid == old(self).penalties_paid
                    && final(self).risk_total == old(self).risk_total && final(self).fee_ledger == old(self).fee_ledger,
            },
    {
        self.do_lock(from, amount, duration_seconds, now, true)
    }

    /// Why an unlock is refused before anything moves, if it is.
    pub open spec fn unlock_refusal(&self, limit: u32, authorized: bool) -> Option<VaultError> {
        if self.paused {
            Some(VaultError::Paused)
        } else if !self.initialized() {
            Some(VaultError::NotInitialized)
        } else if !authorized {
            Some(VaultError::Unauthorized)
        } else if limit > MAX_UNLOCK_LIMIT {
            Some(VaultError::OperationLimitExceeded)
        } else {
            None
        }
    }

    pub(crate) fn release(locks: &Vec<LockEntry>, limit: u32, now: u64) -> (r: (Vec<LockEntry>, i128))
        requires
            forall|i: int| 0 <= i < locks@.len() ==> #[trigger] locks@[i].amount > 0,
            lock_sum(locks@) <= i128::MAX,
        ensures
            r.0@ == spec_release(locks@, limit as nat, now).0,
            r.1 == spec_release(locks@, limit as nat, now).1,
    {
        let ghost s = locks@;
        let mut kept: Vec<LockEntry> = Vec::new();
        let mut released: i128 = 0;
        let mut left: u32 = limit;
        let mut i: usize = 0;
        proof {
            assert(s.subrange(0, s.len() as int) =~= s);
            lemma_release(s, limit as nat, now);
        }
        while i < locks.len()
            invariant
                0 <= i <= s.len(),
                s == locks@,
                left <= limit,
                forall|j: int| 0 <= j < s.len() ==> #[trigger] s[j].amount > 0,
                lock_sum(s) <= i128::MAX,
                ({
                    let rest = spec_release(s.subrange(i as int, s.len() as int), left as nat, now);
                    spec_release(s, limit as nat, now) == (kept@ + rest.0, released + rest.1)
                }),
                0 <= released,
                released + lock_sum(s.subrange(i as int, s.len() as int)) <= lock_sum(s),
            decreases locks.len() - i,
        {
            let ghost t = s.subrange(i as int, s.len() as int);
            let e = locks[i];
            proof {
                assert(t[0] == e);
                assert(t.subrange(1, t.len() as int) =~= s.subrange(i + 1, s.len() as int));
                assert forall|j: int| 0 <= j < t.len() implies #[trigger] t[j].amount > 0 by {
                    assert(t[j] == s[i + j]);
                }
                lemma_release(s.subrange(i + 1, s.len() as int), if left > 0 && e.unlock_at <= now {
                    (left - 1) as nat
                } else {
                    left as nat
                }, now);
                assert(lock_sum(t) == e.amount + lock_sum(s.subrange(i + 1, s.len() as int)));
                assert forall|j: int| 0 <= j < s.subrange(i + 1, s.len() as int).len() implies #[trigger] s.subrange(
                    i + 1,
                    s.len() as int,
                )[j].amount > 0 by {
                    assert(s.subrange(i + 1, s.len() as int)[j] == s[i + 1 + j]);
                }
                lemma_lock_sum_nonneg(s.subrange(i + 1, s.len() as int));
            }
            if left > 0 && e.unlock_at <= now {
                released = released + e.amount;
                left = left - 1;
            } else {
                let ghost k0 = kept@;
                kept.push(e);
                proof {
                    let rest = spec_release(s.subrange(i + 1, s.len() as int), left as nat, now);
                    assert(kept@ + rest.0 =~= k0 + (seq![e] + rest.0));
                }
            }
            i = i + 1;
        }
        proof {
            assert(s.subrange(s.len() as int, s.len() as int) =~= Seq::<LockEntry>::empty());
            assert(kept@ + Seq::<LockEntry>::empty() =~= kept@);
        }
        (kept, released)
    }

    /// The position and locks after releasing up to `limit` of `user`'s due
    /// locks at `now`, and the amount released.
    pub open spec fn spec_unlock(&self, user: Address, limit: u32, now: u64) -> Result<(Position, Seq<LockEntry>, i128), VaultError> {
        self.spec_unlock_as(user, limit, now, true)
    }

    /// An unlock made by an acting account that may (`authorized`) or may not unlock for `user`.
    pub open spec fn spec_unlock_as(&self, user: Address, limit: u32, now: u64, authorized: bool) -> Result<
        (Position, Seq<LockEntry>, i128),
        VaultError,
    > {
        match self.unlock_refusal(limit, authorized) {
            Some(e) => Err(e),
            None => {
                let rel = spec_release(self.user_locks(user), limit as nat, now);
                Ok((Position { locked: (self.position(user).locked - rel.1) as i128, ..self.position(user) }, rel.0, rel.1 as i128))
            },
        }
    }

    pub(crate) fn do_unlock(&mut self, user: Address, limit: u32, now: u64, authorized: bool) -> (r: Result<i128, VaultError>)
        requires
            old(self).wf(),
        ensures
            final(self).wf(),
            match old(self).spec_unlock_as(user, limit, now, authorized) {
                Err(e) => r is Err && r->Err_0 == e && *final(self) == *old(self),
                Ok((p, locks, released)) => r == Ok::<i128, VaultError>(released) && if old(self).positions.map().contains_key(user) {
                    final(self).positions.map() == old(self).positions.map().insert(user, p) && final(self).user_locks(user)
                        == locks && (forall|u: Address| u != user ==> final(self).user_locks(u) == old(self).user_locks(u))
                        && final(self).total_deposits == old(self).total_deposits && final(self).reward_index
                        == old(self).reward_index && final(self).same_settings(old(self)) && final(self).total_penalties
                        == old(self).total_penalties && final(self).penalties_paid == old(self).penalties_paid
                        && final(self).risk_total == old(self).risk_total && final(self).fee_ledger == old(self).fee_ledger
                } else {
                    released == 0 && *final(self) == *old(self)
                },
            },
    {
        if self.paused {
            return Err(VaultError::Paused);
        }
        if self.admin.is_none() {
            return Err(VaultError::NotInitialized);
        }
        if !authorized {
            return Err(VaultError::Unauthorized);
        }
        if limit > MAX_UNLOCK_LIMIT {
            return Err(VaultError::OperationLimitExceeded);
        }
        let p = match self.positions.get(&user) {
            Some(p) => *p,
            None => {
                proof {
                    assert(self.user_locks(user).len() == 0);
                    assert(spec_release(self.user_locks(user), limit as nat, now).1 == 0);
                }
                return Ok(0);
            },
        };
        let current = self.copy_locks(&user);
        proof {
            lemma_release(current@, limit as nat, now);
        }
        let (kept, released) = Self::release(&current, limit, now);
        proof {
            lemma_lock_sum_nonneg(kept@);
        }
        let np = Position { locked: p.locked - released, ..p };
        self.store_locks(user, np, kept);
        Ok(released)
    }

    /// Release up to `limit` (at most 50) of `user`'s locks that are due at
    /// the ledger time `now`, oldest first; returns the amount released (the
    /// user's authorization is checked by the host).
    pub fn unlock_expired(&mut self, user: Address, limit: u32, now: u64) -> (r: Result<i128, VaultError>)
        requires
            old(self).wf(),
        ensures
            final(self).wf(),
            match old(self).spec_unlock(user, limit, now) {
                Err(e) => r is Err && r->Err_0 == e && *final(self) == *old(self),
                Ok((p, locks, released)) => r == Ok::<i128, VaultError>(released) && if old(self).positions.map().contains_key(user) {
                    final(self).positions.map() == old(self).positions.map().insert(user, p) && final(self).user_locks(user)
                        == locks && (forall|u: Address| u != user ==> final(self).user_locks(u) == old(self).user_locks(u))
                        && final(self).total_deposits == old(self).total_deposits && final(self).reward_index
                        == old(self).reward_index && final(self).same_settings(old(self)) && final(self).total_penalties
                        == old(self).total_penalties && final(self).penalties_paid == old(self).penalties_paid
                        && final(self).risk_total == old(self).risk_total && final(self).fee_ledger == old(self).fee_ledger
                } else {
                    released == 0 && *final(self) == *old(self)
                },
            },
    {
        self.do_unlock(user, limit, now, true)
    }

    // -----------------------------------------------------------------------
    // Early exit from locks
    // -----------------------------------------------------------------------

    pub(crate) fn consume(locks: &Vec<LockEntry>, amount: i128) -> (r: Vec<LockEntry>)
        requires
            forall|i: int| 0 <= i < locks@.len() ==> #[trigger] locks@[i].amount > 0,
            0 <= amount,
        ensures
            r@ == spec_consume(locks@, amount as int),
    {
        let ghost s = locks@;
        let mut kept: Vec<LockEntry> = Vec::new();
        let mut remaining: i128 = amount;
        let mut i: usize = 0;
        proof {
            assert(s.subrange(0, s.len() as int) =~= s);
        }
        while i < locks.len()
            invariant
                0 <= i <= s.len(),
                s == locks@,
                0 <= remaining <= amount,
                forall|j: int| 0 <= j < s.len() ==> #[trigger] s[j].amount > 0,
                spec_consume(s, amount as int) == kept@ + spec_consume(s.subrange(i as int, s.len() as int), remaining as int),
            decreases locks.len() - i,
        {
            let ghost t = s.subrange(i as int, s.len() as int);
            let e = locks[i];
            proof {
                assert(t[0] == e);
                assert(t.subrange(1, t.len() as int) =~= s.subrange(i + 1, s.len() as int));
            }
            let ghost k0 = kept@;
            if remaining == 0 {
                kept.push(e);
                proof {
                    assert(spec_consume(t, 0) == t);
                    assert(spec_consume(s.subrange(i + 1, s.len() as int), 0) == s.subrange(i + 1, s.len() as int));
                    assert(t =~= seq![e] + s.subrange(i + 1, s.len() as int));
                    assert(kept@ + s.subrange(i + 1, s.len() as int) =~= k0 + t);
                }
            } else if e.amount <= remaining {
                remaining = remaining - e.amount;
            } else {
                let reduced = LockEntry { amount: e.amount - remaining, unlock_at: e.unlock_at };
                kept.push(reduced);
                remaining = 0;
                proof {
                    assert(spec_consume(s.subrange(i + 1, s.len() as int), 0) == s.subrange(i + 1, s.len() as int));
                    assert(kept@ + s.subrange(i + 1, s.len() as int) =~= k0 + (seq![reduced] + t.subrange(
                        1,
                        t.len() as int,
                    )));
                }
            }
            i = i + 1;
        }
        proof {
            let t = s.subrange(s.len() as int, s.len() as int);
            assert(t =~= Seq::<LockEntry>::empty());
            assert(spec_consume(t, remaining as int) == t);
            assert(kept@ + t =~= kept@);
        }
        kept
    }

    /// The penalty on taking `amount` out of locks early, in basis points of `rate_bps`.
    pub open spec fn spec_penalty(amount: i128, rate_bps: u32) -> Result<i128, VaultError> {
        if amount * rate_bps > i128::MAX {
            Err(VaultError::MathOverflow)
        } else {
            Ok(((amount * rate_bps) / (BPS_DENOMINATOR as int)) as i128)
        }
    }

    pub open spec fn penalties_paid_by(&self, user: Address) -> i128 {
        if self.penalties_paid.map().contains_key(user) {
            self.penalties_paid.map()[user]
        } else {
            0
        }
    }

    /// An early withdrawal of `amount` locked tokens by `user`: the position,
    /// the penalty and the new totals of deposits, penalties and the user's
    /// penalties.
    pub open spec fn spec_withdraw_locked_early(&self, user: Address, amount: i128) -> Result<(Position, i128, i128, i128, i128), VaultError> {
        match self.withdrawal_refusal(amount, true, true) {
            Some(e) => Err(e),
            None => match spec_accrue(self.position(user), self.reward_index) {
                Err(e) => Err(e),
                Ok(p) => if p.locked < amount {
                    Err(VaultError::InsufficientBalance)
                } else {
                    match Self::spec_penalty(amount, self.penalty_rate_bps) {
                        Err(e) => Err(e),
                        Ok(penalty) => if !fits(self.total_penalties + penalty) || !fits(self.penalties_paid_by(user) + penalty) {
                            Err(VaultError::MathOverflow)
                        } else {
                            Ok((
                                Position { balance: (p.balance - amount) as i128, locked: (p.locked - amount) as i128, ..p },
                                penalty,
                                (self.total_deposits - amount) as i128,
                                (self.total_penalties + penalty) as i128,
                                (self.penalties_paid_by(user) + penalty) as i128,
                            ))
                        },
                    }
                },
            },
        }
    }

    /// Take `amount` out of `to`'s locks before they come due, oldest lock
    /// first; the penalty at the configured rate stays in the vault and the
    /// rest is paid out, and returned (the owner's authorization is checked
    /// by the host).
    pub fn withdraw_locked_early(&mut self, to: Address, amount: i128) -> (r: Result<Settlement, VaultError>)
        requires
            old(self).wf(),
            old(self).spec_withdraw_locked_early(to, amount) is Ok ==> fits(old(self).risk_total - amount),
        ensures
            final(self).wf(),
            match old(self).spec_withdraw_locked_early(to, amount) {
                Err(e) => r is Err && r->Err_0 == e && *final(self) == *old(self),
                Ok((p, penalty, total, penalties, paid)) => r is Ok && r->Ok_0.amount == amount - penalty
                    && r->Ok_0.transfers@ == seq![
                    Transfer { token: old(self).deposit_token, from: old(self).contract, to, amount: (amount - penalty) as i128 },
                ] && final(self).positions.map() == old(self).positions.map().insert(to, p) && final(self).user_locks(to)
                    == spec_consume(old(self).user_locks(to), amount as int) && (forall|u: Address|
                    u != to ==> final(self).user_locks(u) == old(self).user_locks(u)) && final(self).total_deposits == total
                    && final(self).total_penalties == penalties && final(self).penalties_paid.map()
                    == old(self).penalties_paid.map().insert(to, paid) && final(self).reward_index == old(self).reward_index
                    && final(self).same_settings(old(self)) && final(self).risk_total == old(self).risk_total - amount
                    && final(self).fee_ledger == old(self).fee_ledger,
            },
    {
        if self.paused {
            return Err(VaultError::Paused);
        }
        if self.admin.is_none() {
            return Err(VaultError::NotInitialized);
        }
        match validate_positive_amount(amount) {
            Ok(()) => {},
            Err(e) => {
                return Err(e);
            },
        }
        if self.check_withdrawal(amount).is_err() {
            return Err(VaultError::OperationLimitExceeded);
        }
        let p0 = self.get_position(&to);
        let p = match Self::accrue(p0, self.reward_index) {
            Ok(p) => p,
            Err(e) => {
                return Err(e);
            },
        };
        if p.locked < amount {
            return Err(VaultError::InsufficientBalance);
        }
        let scaled = match amount.checked_mul(self.penalty_rate_bps as i128) {
            Some(v) => v,
            None => {
                return Err(VaultError::MathOverflow);
            },
        };
        let penalty = scaled / BPS_DENOMINATOR;
        proof {
            assert(0 <= amount * self.penalty_rate_bps <= amount * 10_000) by (nonlinear_arith)
                requires
                    amount > 0,
                    self.penalty_rate_bps <= 10_000,
            ;
            assert(0 <= penalty <= amount);
        }
        let penalties = match self.total_penalties.checked_add(penalty) {
            Some(v) => v,
            None => {
                return Err(VaultError::MathOverflow);
            },
        };
        let already: i128 = match self.penalties_paid.get(&to) {
            Some(v) => *v,
            None => 0,
        };
        let paid = match already.checked_add(penalty) {
            Some(v) => v,
            None => {
                return Err(VaultError::MathOverflow);
            },
        };
        let net = amount - penalty;
        // the position exists: it holds at least `amount` locked tokens
        let current = self.copy_locks(&to);
        proof {
            lemma_consume(current@, amount as int);
        }
        let kept = Self::consume(&current, amount);
        let n = self.positions.len();
        proof {
            let i = choose|i: int| 0 <= i < n && #[trigger] self.positions.entries_view()[i].key == to;
            assert forall|j: int| 0 <= j < self.positions.entries_view().len() implies #[trigger] self.positions.entries_view()[j].value.balance
                >= 0 by {
                assert(self.positions.map().contains_key(self.positions.entries_view()[j].key));
            }
            lemma_balance_within_sum(self.positions.entries_view(), i);
        }
        let np = Position { balance: p.balance - amount, locked: p.locked - amount, ..p };
        let total = self.total_deposits - amount;
        let mid = Position { locked: np.locked, ..p };
        self.store_locks(to, mid, kept);
        self.store_position(to, np, total);
        self.total_penalties = penalties;
        self.penalties_paid.insert(to, paid);
        self.risk_total = self.risk_total - amount;
        let mut transfers: Vec<Transfer> = Vec::new();
        transfers.push(Transfer { token: self.deposit_token, from: self.contract, to, amount: net });
        Ok(Settlement { amount: net, transfers })
    }
}

} // verus!
