use vstd::prelude::*;

use crate::interfaces::Address;

verus! {

/// Keys of a [`Table`]: copyable values compared by their content.
pub trait TableKey: Copy + Sized {
    fn same(&self, other: &Self) -> (b: bool)
        ensures
            b == (*self == *other),
    ;
}

impl TableKey for Address {
    fn same(&self, other: &Self) -> (b: bool) {
        *self == *other
    }
}

/// Two addresses used together as a key (an owner and an operator, a user and an asset).
#[derive(Clone, Copy, Debug, PartialEq, Eq, Structural)]
pub struct AddressPair {
    pub first: Address,
    pub second: Address,
}

impl TableKey for AddressPair {
    fn same(&self, other: &Self) -> (b: bool) {
        *self == *other
    }
}

/// One key and the value stored under it.
pub struct TableEntry<K, V> {
    pub key: K,
    pub value: V,
}

/// A finite map held as a list of entries, at most one per key, kept in the
/// order in which the keys were first inserted.
pub struct Table<K, V> {
    entries: Vec<TableEntry<K, V>>,
}

spec fn unique_keys<K, V>(s: Seq<TableEntry<K, V>>) -> bool {
    forall|i: int, j: int| 0 <= i < s.len() && 0 <= j < s.len() && i != j ==> s[i].key != s[j].key
}

spec fn holds_at<K, V>(s: Seq<TableEntry<K, V>>, k: K, i: int) -> bool {
    0 <= i < s.len() && s[i].key == k
}

spec fn has<K, V>(s: Seq<TableEntry<K, V>>, k: K) -> bool {
    exists|i: int| holds_at(s, k, i)
}

spec fn position<K, V>(s: Seq<TableEntry<K, V>>, k: K) -> int {
    choose|i: int| holds_at(s, k, i)
}

spec fn seq_map<K, V>(s: Seq<TableEntry<K, V>>) -> Map<K, V> {
    Map::new(|k: K| has(s, k), |k: K| s[position(s, k)].value)
}

proof fn lemma_position<K, V>(s: Seq<TableEntry<K, V>>, k: K, i: int)
    requires
        unique_keys(s),
        holds_at(s, k, i),
    ensures
        has(s, k),
        position(s, k) == i,
        seq_map(s).contains_key(k),
        seq_map(s)[k] == s[i].value,
{
    assert(holds_at(s, k, i));
    let j = position(s, k);
    if j != i {
        assert(s[i].key != s[j].key);
    }
}

impl<K, V> Table<K, V> {
    #[verifier::type_invariant]
    spec fn keys_unique(self) -> bool {
        unique_keys(self.entries@)
    }
}

impl<K: TableKey, V> Table<K, V> {
    /// The entries in insertion order.
    pub closed spec fn entries_view(&self) -> Seq<TableEntry<K, V>> {
        self.entries@
    }

    /// The contents as a map from keys to values.
    pub closed spec fn map(&self) -> Map<K, V> {
        seq_map(self.entries@)
    }

    /// Where the entry of `k` stands in insertion order.
    pub closed spec fn index_of(&self, k: K) -> int {
        position(self.entries@, k)
    }

    /// An empty table.
    pub fn new() -> (t: Self)
        ensures
            t.map() == Map::<K, V>::empty(),
            t.entries_view().len() == 0,
    {
        let t = Table { entries: Vec::new() };
        assert(t.map() =~= Map::<K, V>::empty());
        t
    }

    /// The number of keys.
    pub fn len(&self) -> (n: usize)
        ensures
            n == self.entries_view().len(),
            forall|i: int|
                0 <= i < n ==> self.map().contains_key(#[trigger] self.entries_view()[i].key)
                    && self.map()[self.entries_view()[i].key] == self.entries_view()[i].value,
            forall|i: int, j: int|
                0 <= i < n && 0 <= j < n && i != j ==> self.entries_view()[i].key
                    != self.entries_view()[j].key,
            forall|k: K|
                self.map().contains_key(k) ==> exists|i: int|
                    0 <= i < n && #[trigger] self.entries_view()[i].key == k,
    {
        proof {
            use_type_invariant(self);
            assert forall|i: int| 0 <= i < self.entries@.len() implies self.map().contains_key(
                #[trigger] self.entries_view()[i].key,
            ) && self.map()[self.entries_view()[i].key] == self.entries_view()[i].value by {
                lemma_position(self.entries@, self.entries@[i].key, i);
            }
            assert forall|k: K| self.map().contains_key(k) implies exists|i: int|
                0 <= i < self.entries@.len() && #[trigger] self.entries_view()[i].key == k by {
                assert(has(self.entries@, k));
                let i = position(self.entries@, k);
                assert(holds_at(self.entries@, k, i));
                assert(self.entries_view()[i].key == k);
            }
        }
        self.entries.len()
    }

    /// The entry at position `i` in insertion order.
    pub fn entry_at(&self, i: usize) -> (e: &TableEntry<K, V>)
        requires
            i < self.entries_view().len(),
        ensures
            *e == self.entries_view()[i as int],
    {
        &self.entries[i]
    }

    fn find(&self, k: &K) -> (r: Option<usize>)
        ensures
            match r {
                Some(i) => i < self.entries@.len() && self.entries@[i as int].key == *k
                    && self.map().contains_key(*k) && position(self.entries@, *k) == i,
                None => !self.map().contains_key(*k),
            },
    {
        proof {
            use_type_invariant(self);
        }
        let mut i: usize = 0;
        while i < self.entries.len()
            invariant
                0 <= i <= self.entries@.len(),
                unique_keys(self.entries@),
                forall|j: int| 0 <= j < i ==> self.entries@[j].key != *k,
            decreases self.entries.len() - i,
        {
            if self.entries[i].key.same(k) {
                proof {
                    lemma_position(self.entries@, *k, i as int);
                }
                return Some(i);
            }
            i = i + 1;
        }
        None
    }

    /// Whether `k` has a value.
    pub fn contains(&self, k: &K) -> (b: bool)
        ensures
            b == self.map().contains_key(*k),
    {
        self.find(k).is_some()
    }

    /// The value stored under `k`, if any.
    pub fn get(&self, k: &K) -> (r: Option<&V>)
        ensures
            match r {
                Some(v) => self.map().contains_key(*k) && *v == self.map()[*k],
                None => !self.map().contains_key(*k),
            },
    {
        match self.find(k) {
            Some(i) => Some(&self.entries[i].value),
            None => None,
        }
    }

    /// Store `v` under `k`, replacing any earlier value; a new key goes last.
    pub fn insert(&mut self, k: K, v: V)
        ensures
            final(self).map() == old(self).map().insert(k, v),
            old(self).map().contains_key(k) ==> final(self).entries_view().len() == old(self).entries_view().len(),
            !old(self).map().contains_key(k) ==> final(self).entries_view().len() == old(self).entries_view().len() + 1
                && final(self).entries_view().last().key == k,
            old(self).map().contains_key(k) ==> 0 <= old(self).index_of(k) < old(self).entries_view().len()
                && old(self).entries_view()[old(self).index_of(k)].key == k
                && final(self).entries_view() == old(self).entries_view().update(
                old(self).index_of(k),
                TableEntry { key: k, value: v },
            ),
            !old(self).map().contains_key(k) ==> final(self).entries_view() == old(self).entries_view().push(
                TableEntry { key: k, value: v },
            ),
    {
        proof {
            use_type_invariant(&*self);
        }
        let found = self.find(&k);
        let mut entries: Vec<TableEntry<K, V>> = Vec::new();
        std::mem::swap(&mut entries, &mut self.entries);
        let ghost before = entries@;
        assert(unique_keys(before));
        let ghost idx: int = match found {
            Some(i) => i as int,
            None => before.len() as int,
        };
        match found {
            Some(i) => {
                entries.set(i, TableEntry { key: k, value: v });
            },
            None => {
                entries.push(TableEntry { key: k, value: v });
            },
        }
        let ghost after = entries@;
                proof {
            assert(after[idx].key == k);
            assert forall|i: int| 0 <= i < after.len() && i != idx implies after[i] == before[i] by {}
            assert forall|i: int, j: int|
                0 <= i < after.len() && 0 <= j < after.len() && i != j implies after[i].key
                    != after[j].key by {
                if i != idx && j != idx {
                } else if i == idx {
                    if found is Some {
                        assert(before[j].key != before[idx].key);
                    } else {
                        assert(holds_at(before, after[j].key, j));
                    }
                } else {
                    if found is Some {
                        assert(before[i].key != before[idx].key);
                    } else {
                        assert(holds_at(before, after[i].key, i));
                    }
                }
            }
            assert(unique_keys(after));
            lemma_position(after, k, idx);
            assert forall|q: K| q != k implies (has(after, q) == has(before, q)) && (has(after, q)
                ==> seq_map(after)[q] == seq_map(before)[q]) by {
                if has(before, q) {
                    let j = position(before, q);
                    lemma_position(before, q, j);
                    assert(j != idx);
                    assert(holds_at(after, q, j));
                    lemma_position(after, q, j);
                }
                if has(after, q) {
                    let j = position(after, q);
                    lemma_position(after, q, j);
                    assert(j != idx);
                    assert(holds_at(before, q, j));
                }
            }
            assert(seq_map(after) =~= seq_map(before).insert(k, v));
        }
        self.entries = entries;
    }

    /// Remove the value stored under `k` and hand it back, if there was one.
    pub fn remove(&mut self, k: &K) -> (r: Option<V>)
        ensures
            final(self).map() == old(self).map().remove(*k),
            old(self).map().contains_key(*k) ==> 0 <= old(self).index_of(*k) < old(self).entries_view().len()
                && old(self).entries_view()[old(self).index_of(*k)].key == *k
                && final(self).entries_view() == old(self).entries_view().remove(old(self).index_of(*k)),
            !old(self).map().contains_key(*k) ==> final(self).entries_view() == old(self).entries_view(),
            match r {
                Some(v) => old(self).map().contains_key(*k) && v == old(self).map()[*k],
                None => !old(self).map().contains_key(*k),
            },
    {
        proof {
            use_type_invariant(&*self);
        }
        let found = self.find(k);
        let i = match found {
            Some(i) => i,
            None => {
                assert(self.map().remove(*k) =~= self.map());
                return None;
            },
        };
        let mut entries: Vec<TableEntry<K, V>> = Vec::new();
        std::mem::swap(&mut entries, &mut self.entries);
        let ghost before = entries@;
                proof {
            lemma_position(before, *k, i as int);
        }
        let removed = entries.remove(i);
        let ghost after = entries@;
                proof {
            assert forall|x: int| 0 <= x < after.len() implies #[trigger] after[x] == before[if x < i {
                x
            } else {
                x + 1
            }] by {}
            assert forall|x: int, y: int|
                0 <= x < after.len() && 0 <= y < after.len() && x != y implies after[x].key
                    != after[y].key by {
                let bx = if x < i { x } else { x + 1 };
                let by_ = if y < i { y } else { y + 1 };
                assert(after[x] == before[bx]);
                assert(after[y] == before[by_]);
            }
            assert(unique_keys(after));
            assert forall|q: K| q != *k implies (has(after, q) == has(before, q)) && (has(after, q)
                ==> seq_map(after)[q] == seq_map(before)[q]) by {
                if has(before, q) {
                    let j = position(before, q);
                    lemma_position(before, q, j);
                    assert(j != i);
                    let nj = if j < i { j } else { j - 1 };
                    assert(after[nj] == before[if nj < i { nj } else { nj + 1 }]);
                    assert(holds_at(after, q, nj));
                    lemma_position(after, q, nj);
                }
                if has(after, q) {
                    let j = position(after, q);
                    lemma_position(after, q, j);
                    let bj = if j < i { j } else { j + 1 };
                    assert(after[j] == before[bj]);
                    assert(holds_at(before, q, bj));
                }
            }
            if has(after, *k) {
                let j = position(after, *k);
                let bj = if j < i { j } else { j + 1 };
                assert(after[j] == before[bj]);
                assert(before[bj].key != before[i as int].key);
            }
            assert(seq_map(after) =~= seq_map(before).remove(*k));
        }
        self.entries = entries;
        Some(removed.value)
    }
}

} // verus!
