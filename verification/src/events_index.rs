use vstd::prelude::*;

use crate::interfaces::{Address, LedgerInfo};
use crate::table::Table;

verus! {

/// Most entries kept in one user's event log.
pub const MAX_EVENTS_PER_USER: usize = 50;

/// Most entries kept in the global event log.
pub const MAX_GLOBAL_EVENTS: usize = 200;

/// A light record of an emitted event, kept for indexing.
#[derive(Debug)]
pub struct EventLogEntry {
    pub action: String,
    pub user: Option<Address>,
    pub asset: Option<Address>,
    pub amount: i128,
    pub timestamp: u64,
    pub ledger: u32,
}

/// An entry as plain values.
pub struct EntryView {
    pub action: Seq<char>,
    pub user: Option<Address>,
    pub asset: Option<Address>,
    pub amount: i128,
    pub timestamp: u64,
    pub ledger: u32,
}

impl View for EventLogEntry {
    type V = EntryView;

    open spec fn view(&self) -> EntryView {
        EntryView {
            action: self.action@,
            user: self.user,
            asset: self.asset,
            amount: self.amount,
            timestamp: self.timestamp,
            ledger: self.ledger,
        }
    }
}

pub open spec fn entries_view(s: Seq<EventLogEntry>) -> Seq<EntryView> {
    s.map_values(|e: EventLogEntry| e@)
}

/// The last `n` items of `s` (all of them when there are fewer).
pub open spec fn keep_last<T>(s: Seq<T>, n: nat) -> Seq<T> {
    if s.len() > n {
        s.subrange(s.len() - n, s.len() as int)
    } else {
        s
    }
}

impl EventLogEntry {
    pub fn copy(&self) -> (r: Self)
        ensures
            r@ == self@,
    {
        EventLogEntry {
            action: self.action.clone(),
            user: self.user,
            asset: self.asset,
            amount: self.amount,
            timestamp: self.timestamp,
            ledger: self.ledger,
        }
    }
}

fn copy_log(log: &Vec<EventLogEntry>) -> (r: Vec<EventLogEntry>)
    ensures
        entries_view(r@) == entries_view(log@),
{
    let mut r: Vec<EventLogEntry> = Vec::new();
    let mut i: usize = 0;
    while i < log.len()
        invariant
            0 <= i <= log@.len(),
            entries_view(r@) == entries_view(log@.take(i as int)),
        decreases log.len() - i,
    {
        let e = log[i].copy();
        let ghost before = r@;
        r.push(e);
        proof {
            assert(log@.take(i + 1) =~= log@.take(i as int).push(log@[i as int]));
            assert(entries_view(before.push(e)) =~= entries_view(before).push(e@));
            assert(entries_view(log@.take(i as int).push(log@[i as int])) =~= entries_view(log@.take(i as int)).push(
                log@[i as int]@,
            ));
        }
        i = i + 1;
    }
    proof {
        assert(log@.take(log@.len() as int) =~= log@);
    }
    r
}

/// Append `entry` and drop the oldest entries beyond `max`.
fn append_bounded(log: &mut Vec<EventLogEntry>, entry: EventLogEntry, max: usize)
    ensures
        entries_view(final(log)@) == keep_last(entries_view(old(log)@).push(entry@), max as nat),
{
    let ghost full = entries_view(log@).push(entry@);
    log.push(entry);
    assert(entries_view(log@) =~= full);
    while log.len() > max
        invariant
            entries_view(log@) == full.subrange(full.len() - log@.len(), full.len() as int),
            log@.len() <= full.len(),
            log@.len() >= max || log@.len() == full.len(),
        decreases log.len(),
    {
        let ghost before = entries_view(log@);
        let _ = log.remove(0);
        assert(entries_view(log@) =~= before.subrange(1, before.len() as int));
        assert(entries_view(log@) =~= full.subrange(full.len() - log@.len(), full.len() as int));
    }
    assert(entries_view(log@) =~= keep_last(full, max as nat));
}

/// The on-chain index of emitted events: a bounded global log, a bounded
/// log per user, and the users who have interacted.
pub struct EventIndex {
    pub global: Vec<EventLogEntry>,
    pub user_logs: Table<Address, Vec<EventLogEntry>>,
    pub users: Vec<Address>,
}

impl EventIndex {
    /// A user's log (empty for a user without one).
    pub open spec fn user_log(&self, user: Address) -> Seq<EntryView> {
        if self.user_logs.map().contains_key(user) {
            entries_view(self.user_logs.map()[user]@)
        } else {
            Seq::empty()
        }
    }

    /// The logs stay within their bounds and no user is listed twice.
    pub open spec fn wf(&self) -> bool {
        &&& self.global@.len() <= MAX_GLOBAL_EVENTS
        &&& forall|u: Address| #[trigger] self.user_log(u).len() <= MAX_EVENTS_PER_USER
        &&& self.users@.no_duplicates()
    }

    pub fn new() -> (x: Self)
        ensures
            x.wf(),
            x.global@.len() == 0,
            x.user_logs.map() == Map::<Address, Vec<EventLogEntry>>::empty(),
            x.users@.len() == 0,
    {
        EventIndex { global: Vec::new(), user_logs: Table::new(), users: Vec::new() }
    }

    /// Record an event at the ledger's time and sequence in the global log
    /// and, when it concerns a user, in that user's log; the oldest entries
    /// go once a log is full.
    pub fn index_event(&mut self, action: String, user: Option<Address>, asset: Option<Address>, amount: i128, ledger: LedgerInfo)
        requires
            old(self).wf(),
        ensures
            final(self).wf(),
            ({
                let entry = EntryView {
                    action: action@,
                    user,
                    asset,
                    amount,
                    timestamp: ledger.timestamp,
                    ledger: ledger.sequence,
                };
                &&& entries_view(final(self).global@) == keep_last(
                    entries_view(old(self).global@).push(entry),
                    MAX_GLOBAL_EVENTS as nat,
                )
                &&& entries_view(final(self).global@).last() == entry
                &&& match user {
                    Some(u) => final(self).user_log(u) == keep_last(old(self).user_log(u).push(entry), MAX_EVENTS_PER_USER as nat)
                        && forall|v: Address| v != u ==> #[trigger] final(self).user_log(v) == old(self).user_log(v),
                    None => forall|v: Address| #[trigger] final(self).user_log(v) == old(self).user_log(v),
                }
            }),
            final(self).users == old(self).users,
    {
        let entry = EventLogEntry { action, user, asset, amount, timestamp: ledger.timestamp, ledger: ledger.sequence };
        let copy = entry.copy();
        append_bounded(&mut self.global, entry, MAX_GLOBAL_EVENTS);
        assert(self.global@.len() == entries_view(self.global@).len());
        match user {
            Some(u) => {
                let mut log = match self.user_logs.remove(&u) {
                    Some(l) => l,
                    None => Vec::new(),
                };
                assert(entries_view(log@) == old(self).user_log(u));
                append_bounded(&mut log, copy, MAX_EVENTS_PER_USER);
                self.user_logs.insert(u, log);
                assert forall|v: Address| v != u implies #[trigger] self.user_log(v) == old(self).user_log(v) by {}
                assert forall|v: Address| #[trigger] self.user_log(v).len() <= MAX_EVENTS_PER_USER by {
                    if v != u {
                        assert(old(self).user_log(v).len() <= MAX_EVENTS_PER_USER);
                    }
                }
            },
            None => {
                assert forall|v: Address| #[trigger] self.user_log(v).len() <= MAX_EVENTS_PER_USER by {
                    assert(old(self).user_log(v).len() <= MAX_EVENTS_PER_USER);
                }
            },
        }
    }

    /// The global log, oldest entry first.
    pub fn get_global_event_log(&self) -> (r: Vec<EventLogEntry>)
        ensures
            entries_view(r@) == entries_view(self.global@),
    {
        copy_log(&self.global)
    }

    /// A user's log, oldest entry first.
    pub fn get_user_event_log(&self, user: Address) -> (r: Vec<EventLogEntry>)
        ensures
            entries_view(r@) == self.user_log(user),
    {
        match self.user_logs.get(&user) {
            Some(log) => copy_log(log),
            None => Vec::new(),
        }
    }

    fn has_interacted(&self, user: &Address) -> (b: bool)
        ensures
            b == self.users@.contains(*user),
    {
        let mut i: usize = 0;
        while i < self.users.len()
            invariant
                0 <= i <= self.users@.len(),
                forall|j: int| 0 <= j < i ==> self.users@[j] != *user,
            decreases self.users.len() - i,
        {
            if self.users[i] == *user {
                return true;
            }
            i = i + 1;
        }
        false
    }

    /// Note that `user` has interacted; each user is listed once.
    pub fn record_interacting_user(&mut self, user: Address)
        requires
            old(self).wf(),
        ensures
            final(self).wf(),
            final(self).users@ == if old(self).users@.contains(user) {
                old(self).users@
            } else {
                old(self).users@.push(user)
            },
            final(self).global == old(self).global,
            final(self).user_logs == old(self).user_logs,
    {
        if !self.has_interacted(&user) {
            let ghost before = self.users@;
            self.users.push(user);
            assert forall|i: int, j: int| 0 <= i < j < self.users@.len() implies self.users@[i] != self.users@[j] by {
                if j == before.len() {
                    assert(before[i] != user);
                }
            }
        }
        assert forall|v: Address| #[trigger] self.user_log(v).len() <= MAX_EVENTS_PER_USER by {
            assert(old(self).user_log(v).len() <= MAX_EVENTS_PER_USER);
        }
    }

    /// Every user who has interacted, each once, in the order they first did.
    pub fn get_interacting_users(&self) -> (r: Vec<Address>)
        ensures
            r@ == self.users@,
    {
        let mut r: Vec<Address> = Vec::new();
        let mut i: usize = 0;
        while i < self.users.len()
            invariant
                0 <= i <= self.users@.len(),
                r@ == self.users@.take(i as int),
            decreases self.users.len() - i,
        {
            r.push(self.users[i]);
            i = i + 1;
            assert(r@ =~= self.users@.take(i as int));
        }
        assert(self.users@.take(self.users@.len() as int) =~= self.users@);
        r
    }
}

} // verus!
