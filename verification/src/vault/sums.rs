use vstd::prelude::*;

use crate::interfaces::Address;
use crate::table::{AddressPair, TableEntry};
use crate::vault::contract::{Delegation, LockEntry, Position};

verus! {

/// The sum of the amounts of a list of locks.
pub open spec fn lock_sum(s: Seq<LockEntry>) -> int
    decreases s.len(),
{
    if s.len() == 0 {
        0
    } else {
        s[0].amount + lock_sum(s.subrange(1, s.len() as int))
    }
}

pub(crate) proof fn lemma_lock_sum_push(s: Seq<LockEntry>, e: LockEntry)
    ensures
        lock_sum(s.push(e)) == lock_sum(s) + e.amount,
    decreases s.len(),
{
    if s.len() == 0 {
        assert(s.push(e).subrange(1, 1) =~= Seq::<LockEntry>::empty());
        assert(lock_sum(s.push(e).subrange(1, 1)) == 0);
        assert(lock_sum(s) == 0);
    } else {
        assert(s.push(e)[0] == s[0]);
        lemma_lock_sum_push(s.subrange(1, s.len() as int), e);
        assert(s.push(e).subrange(1, s.len() as int + 1) =~= s.subrange(1, s.len() as int).push(e));
    }
}

pub(crate) proof fn lemma_lock_sum_nonneg(s: Seq<LockEntry>)
    requires
        forall|i: int| 0 <= i < s.len() ==> #[trigger] s[i].amount > 0,
    ensures
        lock_sum(s) >= 0,
    decreases s.len(),
{
    if s.len() > 0 {
        let t = s.subrange(1, s.len() as int);
        assert forall|i: int| 0 <= i < t.len() implies #[trigger] t[i].amount > 0 by {
            assert(t[i] == s[i + 1]);
        }
        lemma_lock_sum_nonneg(t);
        assert(s[0].amount > 0);
    }
}

pub(crate) proof fn lemma_lock_sum_cons(e: LockEntry, t: Seq<LockEntry>)
    ensures
        lock_sum(seq![e] + t) == e.amount + lock_sum(t),
{
    let s = seq![e] + t;
    assert(s.subrange(1, s.len() as int) =~= t);
}

/// Release, oldest first, up to `limit` locks that have come due at `now`:
/// the locks that stay and the amount released.
pub open spec fn spec_release(s: Seq<LockEntry>, limit: nat, now: u64) -> (Seq<LockEntry>, int)
    decreases s.len(),
{
    if s.len() == 0 {
        (Seq::empty(), 0)
    } else {
        let rest = spec_release(s.subrange(1, s.len() as int), if limit > 0 && s[0].unlock_at <= now {
            (limit - 1) as nat
        } else {
            limit
        }, now);
        if limit > 0 && s[0].unlock_at <= now {
            (rest.0, rest.1 + s[0].amount)
        } else {
            (seq![s[0]] + rest.0, rest.1)
        }
    }
}

pub(crate) proof fn lemma_release(s: Seq<LockEntry>, limit: nat, now: u64)
    requires
        forall|i: int| 0 <= i < s.len() ==> #[trigger] s[i].amount > 0,
    ensures
        lock_sum(spec_release(s, limit, now).0) + spec_release(s, limit, now).1 == lock_sum(s),
        spec_release(s, limit, now).1 >= 0,
        forall|i: int|
            0 <= i < spec_release(s, limit, now).0.len() ==> #[trigger] spec_release(s, limit, now).0[i].amount > 0,
    decreases s.len(),
{
    if s.len() > 0 {
        let t = s.subrange(1, s.len() as int);
        let l2 = if limit > 0 && s[0].unlock_at <= now {
            (limit - 1) as nat
        } else {
            limit
        };
        assert forall|i: int| 0 <= i < t.len() implies #[trigger] t[i].amount > 0 by {
            assert(t[i] == s[i + 1]);
        }
        lemma_release(t, l2, now);
        assert(s[0].amount > 0);
        if !(limit > 0 && s[0].unlock_at <= now) {
            let k = spec_release(t, l2, now).0;
            lemma_lock_sum_cons(s[0], k);
            assert forall|i: int| 0 <= i < (seq![s[0]] + k).len() implies #[trigger] (seq![s[0]] + k)[i].amount > 0 by {
                if i > 0 {
                    assert((seq![s[0]] + k)[i] == k[i - 1]);
                }
            }
        }
    }
}

/// Take `amount` out of a list of locks, oldest first.
pub open spec fn spec_consume(s: Seq<LockEntry>, amount: int) -> Seq<LockEntry>
    decreases s.len(),
{
    if s.len() == 0 || amount <= 0 {
        s
    } else if s[0].amount <= amount {
        spec_consume(s.subrange(1, s.len() as int), amount - s[0].amount)
    } else {
        seq![LockEntry { amount: (s[0].amount - amount) as i128, unlock_at: s[0].unlock_at }] + s.subrange(
            1,
            s.len() as int,
        )
    }
}

pub(crate) proof fn lemma_consume(s: Seq<LockEntry>, amount: int)
    requires
        forall|i: int| 0 <= i < s.len() ==> #[trigger] s[i].amount > 0,
        0 <= amount <= lock_sum(s),
    ensures
        lock_sum(spec_consume(s, amount)) == lock_sum(s) - amount,
        forall|i: int| 0 <= i < spec_consume(s, amount).len() ==> #[trigger] spec_consume(s, amount)[i].amount > 0,
    decreases s.len(),
{
    if s.len() > 0 && amount > 0 {
        let t = s.subrange(1, s.len() as int);
        assert forall|i: int| 0 <= i < t.len() implies #[trigger] t[i].amount > 0 by {
            assert(t[i] == s[i + 1]);
        }
        if s[0].amount <= amount {
            lemma_consume(t, amount - s[0].amount);
        } else {
            let e = LockEntry { amount: (s[0].amount - amount) as i128, unlock_at: s[0].unlock_at };
            lemma_lock_sum_cons(e, t);
            assert forall|i: int| 0 <= i < (seq![e] + t).len() implies #[trigger] (seq![e] + t)[i].amount > 0 by {
                if i > 0 {
                    assert((seq![e] + t)[i] == t[i - 1]);
                }
            }
        }
    }
}

/// The sum of the balances of a list of positions.
pub open spec fn balance_sum(s: Seq<TableEntry<Address, Position>>) -> int
    decreases s.len(),
{
    if s.len() == 0 {
        0
    } else {
        balance_sum(s.drop_last()) + s.last().value.balance
    }
}

pub(crate) proof fn lemma_balance_sum_push(s: Seq<TableEntry<Address, Position>>, e: TableEntry<Address, Position>)
    ensures
        balance_sum(s.push(e)) == balance_sum(s) + e.value.balance,
{
    assert(s.push(e).drop_last() =~= s);
}

pub(crate) proof fn lemma_balance_sum_update(s: Seq<TableEntry<Address, Position>>, i: int, e: TableEntry<Address, Position>)
    requires
        0 <= i < s.len(),
    ensures
        balance_sum(s.update(i, e)) == balance_sum(s) - s[i].value.balance + e.value.balance,
    decreases s.len(),
{
    if i == s.len() - 1 {
        assert(s.update(i, e).drop_last() =~= s.drop_last());
    } else {
        lemma_balance_sum_update(s.drop_last(), i, e);
        assert(s.update(i, e).drop_last() =~= s.drop_last().update(i, e));
    }
}

pub(crate) proof fn lemma_balance_within_sum(s: Seq<TableEntry<Address, Position>>, i: int)
    requires
        0 <= i < s.len(),
        forall|j: int| 0 <= j < s.len() ==> #[trigger] s[j].value.balance >= 0,
    ensures
        s[i].value.balance <= balance_sum(s),
        balance_sum(s) >= 0,
    decreases s.len(),
{
    let d = s.drop_last();
    assert forall|j: int| 0 <= j < d.len() implies #[trigger] d[j].value.balance >= 0 by {
        assert(d[j] == s[j]);
    }
    assert(s.last() == s[s.len() - 1]);
    assert(s.last().value.balance >= 0);
    assert(balance_sum(s) == balance_sum(d) + s.last().value.balance);
    if i < s.len() - 1 {
        assert(d[i] == s[i]);
        lemma_balance_within_sum(d, i);
    } else if d.len() > 0 {
        lemma_balance_within_sum(d, 0);
    }
}

/// The sum of the balances held in `asset`.
pub open spec fn asset_sum(s: Seq<TableEntry<AddressPair, Position>>, asset: Address) -> int
    decreases s.len(),
{
    if s.len() == 0 {
        0
    } else {
        asset_sum(s.drop_last(), asset) + if s.last().key.second == asset {
            s.last().value.balance as int
        } else {
            0
        }
    }
}

pub open spec fn share_in(e: TableEntry<AddressPair, Position>, asset: Address) -> int {
    if e.key.second == asset {
        e.value.balance as int
    } else {
        0
    }
}

pub(crate) proof fn lemma_asset_sum_push(s: Seq<TableEntry<AddressPair, Position>>, e: TableEntry<AddressPair, Position>, asset: Address)
    ensures
        asset_sum(s.push(e), asset) == asset_sum(s, asset) + share_in(e, asset),
{
    assert(s.push(e).drop_last() =~= s);
}

pub(crate) proof fn lemma_asset_sum_update(
    s: Seq<TableEntry<AddressPair, Position>>,
    i: int,
    e: TableEntry<AddressPair, Position>,
    asset: Address,
)
    requires
        0 <= i < s.len(),
    ensures
        asset_sum(s.update(i, e), asset) == asset_sum(s, asset) - share_in(s[i], asset) + share_in(e, asset),
    decreases s.len(),
{
    if i == s.len() - 1 {
        assert(s.update(i, e).drop_last() =~= s.drop_last());
    } else {
        lemma_asset_sum_update(s.drop_last(), i, e, asset);
        assert(s.update(i, e).drop_last() =~= s.drop_last().update(i, e));
    }
}

pub(crate) proof fn lemma_asset_within_sum(s: Seq<TableEntry<AddressPair, Position>>, i: int, asset: Address)
    requires
        0 <= i < s.len(),
        s[i].key.second == asset,
        forall|j: int| 0 <= j < s.len() ==> #[trigger] s[j].value.balance >= 0,
    ensures
        s[i].value.balance <= asset_sum(s, asset),
    decreases s.len(),
{
    let d = s.drop_last();
    assert forall|j: int| 0 <= j < d.len() implies #[trigger] d[j].value.balance >= 0 by {
        assert(d[j] == s[j]);
    }
    assert(s.last() == s[s.len() - 1]);
    lemma_asset_sum_nonneg(d, asset);
    if i < s.len() - 1 {
        assert(d[i] == s[i]);
        lemma_asset_within_sum(d, i, asset);
    }
}

pub(crate) proof fn lemma_asset_sum_absent(s: Seq<TableEntry<AddressPair, Position>>, asset: Address)
    requires
        forall|j: int| 0 <= j < s.len() ==> #[trigger] s[j].key.second != asset,
    ensures
        asset_sum(s, asset) == 0,
    decreases s.len(),
{
    if s.len() > 0 {
        let d = s.drop_last();
        assert forall|j: int| 0 <= j < d.len() implies #[trigger] d[j].key.second != asset by {
            assert(d[j] == s[j]);
        }
        assert(s.last() == s[s.len() - 1]);
        lemma_asset_sum_absent(d, asset);
    }
}

pub(crate) proof fn lemma_asset_sum_nonneg(s: Seq<TableEntry<AddressPair, Position>>, asset: Address)
    requires
        forall|j: int| 0 <= j < s.len() ==> #[trigger] s[j].value.balance >= 0,
    ensures
        asset_sum(s, asset) >= 0,
    decreases s.len(),
{
    if s.len() > 0 {
        let d = s.drop_last();
        assert forall|j: int| 0 <= j < d.len() implies #[trigger] d[j].value.balance >= 0 by {
            assert(d[j] == s[j]);
        }
        assert(s.last() == s[s.len() - 1]);
        lemma_asset_sum_nonneg(d, asset);
    }
}

/// How many operators `delegator` has named.
pub open spec fn delegation_count(s: Seq<TableEntry<AddressPair, Delegation>>, delegator: Address) -> nat
    decreases s.len(),
{
    if s.len() == 0 {
        0
    } else {
        delegation_count(s.drop_last(), delegator) + if s.last().key.first == delegator {
            1nat
        } else {
            0nat
        }
    }
}

/// The delegations granted by `delegator`, in the order they were first made.
pub open spec fn delegations_of(s: Seq<TableEntry<AddressPair, Delegation>>, delegator: Address) -> Seq<Delegation>
    decreases s.len(),
{
    if s.len() == 0 {
        Seq::empty()
    } else if s.last().key.first == delegator {
        delegations_of(s.drop_last(), delegator).push(s.last().value)
    } else {
        delegations_of(s.drop_last(), delegator)
    }
}

} // verus!
