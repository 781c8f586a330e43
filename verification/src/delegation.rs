use vstd::prelude::*;

use crate::interfaces::Address;

verus! {

/// A grant by `delegator` letting `delegatee` perform `operation` until `expiration`.
#[derive(Clone, Debug)]
pub struct DelegationRule {
    pub delegator: Address,
    pub delegatee: Address,
    pub operation: String,
    pub expiration: u64,
}

#[derive(Copy, Clone, Debug, Eq, PartialEq, Structural)]
pub enum DelegationError {
    InvalidExpiration,
    DelegationNotFound,
}

/// A rule as plain values.
pub struct RuleView {
    pub delegator: Address,
    pub delegatee: Address,
    pub operation: Seq<char>,
    pub expiration: u64,
}

impl View for DelegationRule {
    type V = RuleView;

    open spec fn view(&self) -> RuleView {
        RuleView {
            delegator: self.delegator,
            delegatee: self.delegatee,
            operation: self.operation@,
            expiration: self.expiration,
        }
    }
}

pub open spec fn rule_views(s: Seq<DelegationRule>) -> Seq<RuleView> {
    s.map_values(|r: DelegationRule| r@)
}

/// The rule is the grant for this delegator, delegatee and operation.
pub open spec fn rule_is_for(r: RuleView, delegator: Address, delegatee: Address, operation: Seq<char>) -> bool {
    r.delegator == delegator && r.delegatee == delegatee && r.operation == operation
}

/// The recorded grant for a delegator, delegatee and operation, if any.
pub open spec fn spec_lookup(s: Seq<RuleView>, delegator: Address, delegatee: Address, operation: Seq<char>) -> Option<RuleView> {
    if exists|i: int| 0 <= i < s.len() && rule_is_for(#[trigger] s[i], delegator, delegatee, operation) {
        let i = choose|i: int| 0 <= i < s.len() && rule_is_for(#[trigger] s[i], delegator, delegatee, operation);
        Some(s[i])
    } else {
        None
    }
}

/// Grants delegations between accounts, one rule per delegator, delegatee and operation.
pub struct DelegationManager {
    pub rules: Vec<DelegationRule>,
}

impl DelegationManager {
    pub open spec fn grants(&self) -> Seq<RuleView> {
        rule_views(self.rules@)
    }

    /// At most one rule per delegator, delegatee and operation.
    pub open spec fn wf(&self) -> bool {
        forall|i: int, j: int|
            0 <= i < self.grants().len() && 0 <= j < self.grants().len() && i != j ==> !rule_is_for(
                self.grants()[i],
                self.grants()[j].delegator,
                self.grants()[j].delegatee,
                self.grants()[j].operation,
            )
    }

    pub open spec fn lookup(&self, delegator: Address, delegatee: Address, operation: Seq<char>) -> Option<RuleView> {
        spec_lookup(self.grants(), delegator, delegatee, operation)
    }

    /// Whether `delegatee` may perform `operation` for `delegator` at ledger time `now`.
    pub open spec fn authorized(&self, delegator: Address, delegatee: Address, operation: Seq<char>, now: u64) -> bool {
        self.lookup(delegator, delegatee, operation) matches Some(rule) && now <= rule.expiration
    }

    /// No delegation recorded yet.
    pub fn new() -> (m: Self)
        ensures
            m.wf(),
            m.grants().len() == 0,
    {
        let m = DelegationManager { rules: Vec::new() };
        assert(m.grants() =~= Seq::<RuleView>::empty());
        m
    }

    fn find(&self, delegator: &Address, delegatee: &Address, operation: &String) -> (r: Option<usize>)
        requires
            self.wf(),
        ensures
            match r {
                Some(i) => i < self.grants().len() && rule_is_for(self.grants()[i as int], *delegator, *delegatee, operation@)
                    && self.lookup(*delegator, *delegatee, operation@) == Some(self.grants()[i as int]),
                None => self.lookup(*delegator, *delegatee, operation@) is None,
            },
    {
        let mut i: usize = 0;
        while i < self.rules.len()
            invariant
                0 <= i <= self.rules@.len(),
                self.wf(),
                forall|k: int| 0 <= k < i ==> !rule_is_for(#[trigger] self.grants()[k], *delegator, *delegatee, operation@),
            decreases self.rules.len() - i,
        {
            if self.rules[i].delegator == *delegator && self.rules[i].delegatee == *delegatee
                && self.rules[i].operation == *operation {
                proof {
                    let s = self.grants();
                    assert(rule_is_for(s[i as int], *delegator, *delegatee, operation@));
                    let j = choose|j: int| 0 <= j < s.len() && rule_is_for(#[trigger] s[j], *delegator, *delegatee, operation@);
                    if j != i as int {
                        assert(!rule_is_for(s[j], s[i as int].delegator, s[i as int].delegatee, s[i as int].operation));
                    }
                }
                return Some(i);
            }
            i = i + 1;
        }
        None
    }

    /// Grant `delegatee` the right to perform `operation` for `delegator` until
    /// `expiration`, which must lie after the ledger time `now` (the
    /// delegator's authorization is checked by the host). An earlier grant for
    /// the same operation is replaced.
    pub fn delegate(&mut self, delegator: Address, delegatee: Address, operation: String, expiration: u64, now: u64) -> (r: Result<(), DelegationError>)
        requires
            old(self).wf(),
        ensures
            final(self).wf(),
            expiration <= now ==> r == Err::<(), DelegationError>(DelegationError::InvalidExpiration)
                && final(self).grants() == old(self).grants(),
            expiration > now ==> r is Ok && final(self).lookup(delegator, delegatee, operation@) == Some(
                RuleView { delegator, delegatee, operation: operation@, expiration },
            ),
            forall|a: Address, b: Address, op: Seq<char>|
                !(a == delegator && b == delegatee && op == operation@) ==> final(self).lookup(a, b, op)
                    == old(self).lookup(a, b, op),
    {
        if expiration <= now {
            return Err(DelegationError::InvalidExpiration);
        }
        let ghost op = operation@;
        let found = self.find(&delegator, &delegatee, &operation);
        let rule = DelegationRule { delegator, delegatee, operation, expiration };
        let ghost v = rule@;
        let ghost before = self.grants();
        match found {
            Some(i) => {
                self.rules.set(i, rule);
                proof {
                    assert(self.grants() =~= before.update(i as int, v));
                }
            },
            None => {
                self.rules.push(rule);
                proof {
                    assert(self.grants() =~= before.push(v));
                }
            },
        }
        proof {
            let s = self.grants();
            let idx: int = match found {
                Some(i) => i as int,
                None => before.len() as int,
            };
            assert(s[idx] == v);
            assert forall|i: int, j: int|
                0 <= i < s.len() && 0 <= j < s.len() && i != j implies !rule_is_for(s[i], s[j].delegator, s[j].delegatee, s[j].operation) by {
                if i != idx && j != idx {
                    assert(s[i] == before[i] && s[j] == before[j]);
                } else if i == idx && found is None {
                    assert(s[j] == before[j]);
                } else if j == idx && found is None {
                    assert(s[i] == before[i]);
                } else if i == idx {
                    assert(s[j] == before[j]);
                    assert(!rule_is_for(before[j], before[idx].delegator, before[idx].delegatee, before[idx].operation));
                } else {
                    assert(s[i] == before[i]);
                    assert(!rule_is_for(before[i], before[idx].delegator, before[idx].delegatee, before[idx].operation));
                }
            }
            let c = choose|c: int| 0 <= c < s.len() && rule_is_for(#[trigger] s[c], delegator, delegatee, op);
            if c != idx {
                assert(!rule_is_for(s[c], s[idx].delegator, s[idx].delegatee, s[idx].operation));
            }
            assert forall|a: Address, b: Address, o: Seq<char>|
                !(a == delegator && b == delegatee && o == op) implies spec_lookup(s, a, b, o) == spec_lookup(before, a, b, o) by {
                if exists|k: int| 0 <= k < before.len() && rule_is_for(#[trigger] before[k], a, b, o) {
                    let k = choose|k: int| 0 <= k < before.len() && rule_is_for(#[trigger] before[k], a, b, o);
                    assert(k != idx || found is None);
                    assert(s[k] == before[k]);
                    let k2 = choose|k2: int| 0 <= k2 < s.len() && rule_is_for(#[trigger] s[k2], a, b, o);
                    if k2 != k {
                        assert(!rule_is_for(s[k2], s[k].delegator, s[k].delegatee, s[k].operation));
                    }
                }
                if exists|k: int| 0 <= k < s.len() && rule_is_for(#[trigger] s[k], a, b, o) {
                    let k = choose|k: int| 0 <= k < s.len() && rule_is_for(#[trigger] s[k], a, b, o);
                    assert(k != idx);
                    assert(s[k] == before[k]);
                }
            }
        }
        Ok(())
    }

    /// Withdraw a grant (the delegator's authorization is checked by the host).
    pub fn revoke_delegation(&mut self, delegator: Address, delegatee: Address, operation: &String) -> (r: Result<(), DelegationError>)
        requires
            old(self).wf(),
        ensures
            final(self).wf(),
            old(self).lookup(delegator, delegatee, operation@) is None ==> r == Err::<(), DelegationError>(
                DelegationError::DelegationNotFound,
            ) && final(self).grants() == old(self).grants(),
            old(self).lookup(delegator, delegatee, operation@) is Some ==> r is Ok
                && final(self).lookup(delegator, delegatee, operation@) is None,
            forall|a: Address, b: Address, op: Seq<char>|
                !(a == delegator && b == delegatee && op == operation@) ==> final(self).lookup(a, b, op)
                    == old(self).lookup(a, b, op),
    {
        let i = match self.find(&delegator, &delegatee, operation) {
            Some(i) => i,
            None => {
                return Err(DelegationError::DelegationNotFound);
            },
        };
        let ghost before = self.grants();
        let _ = self.rules.remove(i);
        proof {
            let s = self.grants();
            assert(s =~= before.remove(i as int));
            assert forall|x: int, y: int|
                0 <= x < s.len() && 0 <= y < s.len() && x != y implies !rule_is_for(s[x], s[y].delegator, s[y].delegatee, s[y].operation) by {
                let bx = if x < i { x } else { x + 1 };
                let by_ = if y < i { y } else { y + 1 };
                assert(s[x] == before[bx] && s[y] == before[by_]);
            }
            if exists|k: int| 0 <= k < s.len() && rule_is_for(#[trigger] s[k], delegator, delegatee, operation@) {
                let k = choose|k: int| 0 <= k < s.len() && rule_is_for(#[trigger] s[k], delegator, delegatee, operation@);
                let bk = if k < i { k } else { k + 1 };
                assert(s[k] == before[bk]);
                assert(!rule_is_for(before[bk], before[i as int].delegator, before[i as int].delegatee, before[i as int].operation));
            }
            assert forall|a: Address, b: Address, o: Seq<char>|
                !(a == delegator && b == delegatee && o == operation@) implies spec_lookup(s, a, b, o) == spec_lookup(before, a, b, o) by {
                if exists|k: int| 0 <= k < before.len() && rule_is_for(#[trigger] before[k], a, b, o) {
                    let k = choose|k: int| 0 <= k < before.len() && rule_is_for(#[trigger] before[k], a, b, o);
                    assert(k != i);
                    let sk = if k < i { k } else { k - 1 };
                    assert(s[sk] == before[k]);
                    let k2 = choose|k2: int| 0 <= k2 < s.len() && rule_is_for(#[trigger] s[k2], a, b, o);
                    let bk2 = if k2 < i { k2 } else { k2 + 1 };
                    assert(s[k2] == before[bk2]);
                    if bk2 != k {
                        assert(!rule_is_for(before[bk2], before[k].delegator, before[k].delegatee, before[k].operation));
                    }
                }
                if exists|k: int| 0 <= k < s.len() && rule_is_for(#[trigger] s[k], a, b, o) {
                    let k = choose|k: int| 0 <= k < s.len() && rule_is_for(#[trigger] s[k], a, b, o);
                    let bk = if k < i { k } else { k + 1 };
                    assert(s[k] == before[bk]);
                }
            }
        }
        Ok(())
    }

    /// The recorded grant, if any.
    pub fn get_delegation(&self, delegator: Address, delegatee: Address, operation: &String) -> (r: Option<DelegationRule>)
        requires
            self.wf(),
        ensures
            match r {
                Some(rule) => self.lookup(delegator, delegatee, operation@) == Some(rule@),
                None => self.lookup(delegator, delegatee, operation@) is None,
            },
    {
        match self.find(&delegator, &delegatee, operation) {
            Some(i) => {
                let rule = &self.rules[i];
                Some(DelegationRule {
                    delegator: rule.delegator,
                    delegatee: rule.delegatee,
                    operation: rule.operation.clone(),
                    expiration: rule.expiration,
                })
            },
            None => None,
        }
    }

    /// Whether a grant exists and has not expired at ledger time `now`.
    pub fn is_authorized(&self, delegator: Address, delegatee: Address, operation: &String, now: u64) -> (b: bool)
        requires
            self.wf(),
        ensures
            b == self.authorized(delegator, delegatee, operation@, now),
    {
        match self.find(&delegator, &delegatee, operation) {
            Some(i) => now <= self.rules[i].expiration,
            None => false,
        }
    }
}

/// Once `delegate` has recorded a grant until `expiration`, the delegatee is
/// authorized at exactly the ledger times up to `expiration`.
pub proof fn lemma_grant_window(
    m: DelegationManager,
    delegator: Address,
    delegatee: Address,
    operation: Seq<char>,
    expiration: u64,
    t: u64,
)
    requires
        m.lookup(delegator, delegatee, operation) == Some(RuleView { delegator, delegatee, operation, expiration }),
    ensures
        m.authorized(delegator, delegatee, operation, t) <==> t <= expiration,
{
}

/// Once `revoke_delegation` has removed a grant (or none was made), the
/// delegatee is authorized at no time.
pub proof fn lemma_revoked_never_authorized(
    m: DelegationManager,
    delegator: Address,
    delegatee: Address,
    operation: Seq<char>,
    t: u64,
)
    requires
        m.lookup(delegator, delegatee, operation) is None,
    ensures
        !m.authorized(delegator, delegatee, operation, t),
{
}

} // verus!
