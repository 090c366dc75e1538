//! A keyed store: the in-memory stand-in for a host's key-value storage.

use vstd::prelude::*;

verus! {

/// A type whose values can serve as keys of a [`Store`].
pub trait Key: Sized {
    /// Tells whether two keys are the same key.
    fn same(&self, other: &Self) -> (r: bool)
        ensures
            r == (*self == *other),
    ;
}

impl<A: Key, B: Key> Key for (A, B) {
    fn same(&self, other: &Self) -> (r: bool) {
        self.0.same(&other.0) && self.1.same(&other.1)
    }
}

/// A finite map from keys to values, kept as a list of entries in which no key occurs twice.
pub struct Store<K: Key, V: Copy> {
    entries: Vec<(K, V)>,
}

/// Whether some entry of `entries` has the key `key`.
spec fn has_key<K, V>(entries: Seq<(K, V)>, key: K) -> bool {
    exists|i: int| 0 <= i < entries.len() && (#[trigger] entries[i]).0 == key
}

/// The position of an entry of `entries` with the key `key`, if there is one.
spec fn position_of<K, V>(entries: Seq<(K, V)>, key: K) -> int {
    choose|i: int| 0 <= i < entries.len() && (#[trigger] entries[i]).0 == key
}

/// Whether no key occurs in two entries.
spec fn distinct_keys<K, V>(entries: Seq<(K, V)>) -> bool {
    forall|i: int, j: int|
        0 <= i < j < entries.len() ==> (#[trigger] entries[i]).0 != (#[trigger] entries[j]).0
}

/// The map that a list of entries stands for.
spec fn as_map<K, V>(entries: Seq<(K, V)>) -> Map<K, V> {
    Map::new(|k: K| has_key(entries, k), |k: K| entries[position_of(entries, k)].1)
}

/// In a list without repeated keys, each entry is what the map holds under its key.
proof fn lemma_entry_in_map<K, V>(entries: Seq<(K, V)>, i: int)
    requires
        distinct_keys(entries),
        0 <= i < entries.len(),
    ensures
        as_map(entries).dom().contains(entries[i].0),
        as_map(entries)[entries[i].0] == entries[i].1,
{
    let k = entries[i].0;
    assert(has_key(entries, k));
    let p = position_of(entries, k);
    assert(0 <= p < entries.len() && entries[p].0 == k);
    if p < i {
        assert(entries[p].0 != entries[i].0);
    } else if i < p {
        assert(entries[i].0 != entries[p].0);
    }
}

/// The keys of a list of entries are finitely many.
proof fn lemma_as_map_finite<K, V>(entries: Seq<(K, V)>)
    ensures
        as_map(entries).dom().finite(),
    decreases entries.len(),
{
    if entries.len() == 0 {
        assert(as_map(entries).dom() =~= Set::<K>::empty());
    } else {
        let front = entries.drop_last();
        let last = entries.last();
        lemma_as_map_finite(front);
        assert forall|k: K| as_map(entries).dom().contains(k) <==> as_map(front).dom().insert(
            last.0,
        ).contains(k) by {
            if has_key(entries, k) {
                let p = position_of(entries, k);
                if p < entries.len() - 1 {
                    assert(front[p].0 == k);
                }
            }
            if has_key(front, k) {
                let p = position_of(front, k);
                assert(entries[p].0 == k);
            }
            if k == last.0 {
                assert(entries[entries.len() - 1].0 == k);
            }
        }
        assert(as_map(entries).dom() =~= as_map(front).dom().insert(last.0));
    }
}

impl<K: Key, V: Copy> View for Store<K, V> {
    type V = Map<K, V>;

    closed spec fn view(&self) -> Map<K, V> {
        as_map(self.entries@)
    }
}

impl<K: Key, V: Copy> Store<K, V> {
    #[verifier::type_invariant]
    spec fn well_formed(&self) -> bool {
        distinct_keys(self.entries@)
    }

    /// A store holds finitely many keys.
    pub proof fn lemma_finite(&self)
        ensures
            self@.dom().finite(),
    {
        lemma_as_map_finite(self.entries@);
    }

    /// Creates a store that holds nothing.
    pub fn new() -> (store: Self)
        ensures
            store@ == Map::<K, V>::empty(),
    {
        let store = Store { entries: Vec::new() };
        assert(store@ =~= Map::<K, V>::empty());
        store
    }

    /// Finds the position of the entry under `key`.
    fn find(&self, key: &K) -> (found: Option<usize>)
        ensures
            match found {
                Some(i) => i < self.entries.len() && self.entries[i as int].0 == *key,
                None => !has_key(self.entries@, *key),
            },
    {
        let mut i: usize = 0;
        while i < self.entries.len()
            invariant
                i <= self.entries.len(),
                forall|j: int| 0 <= j < i ==> (#[trigger] self.entries[j]).0 != *key,
            decreases self.entries.len() - i,
        {
            if self.entries[i].0.same(key) {
                return Some(i);
            }
            i += 1;
        }
        None
    }

    /// Reads the value stored under `key`, if there is one.
    pub fn get(&self, key: &K) -> (value: Option<V>)
        ensures
            value == (if self@.dom().contains(*key) {
                Some(self@[*key])
            } else {
                None
            }),
    {
        proof {
            use_type_invariant(self);
        }
        match self.find(key) {
            Some(i) => {
                proof {
                    lemma_entry_in_map(self.entries@, i as int);
                }
                Some(self.entries[i].1)
            },
            None => None,
        }
    }

    /// Reads the value stored under `key`, or `default` where the store holds none.
    pub fn get_or(&self, key: &K, default: V) -> (value: V)
        ensures
            value == (if self@.dom().contains(*key) {
                self@[*key]
            } else {
                default
            }),
    {
        match self.get(key) {
            Some(value) => value,
            None => default,
        }
    }

    /// Stores `value` under `key`, in place of what was stored there before.
    pub fn insert(&mut self, key: K, value: V)
        ensures
            final(self)@ == old(self)@.insert(key, value),
    {
        proof {
            use_type_invariant(&*self);
        }
        let found = self.find(&key);
        let mut entries: Vec<(K, V)> = Vec::new();
        std::mem::swap(&mut entries, &mut self.entries);
        let ghost before = entries@;
        match found {
            Some(i) => {
                entries.set(i, (key, value));
            },
            None => {
                entries.push((key, value));
            },
        }
        proof {
            lemma_insert_as_map(before, entries@, key, value);
        }
        self.entries = entries;
    }

    /// Removes what is stored under `key`, if anything.
    pub fn remove(&mut self, key: &K)
        ensures
            final(self)@ == old(self)@.remove(*key),
    {
        proof {
            use_type_invariant(&*self);
        }
        let found = self.find(key);
        let mut entries: Vec<(K, V)> = Vec::new();
        std::mem::swap(&mut entries, &mut self.entries);
        let ghost before = entries@;
        match found {
            Some(i) => {
                entries.swap_remove(i);
            },
            None => {},
        }
        proof {
            lemma_remove_as_map(before, entries@, *key);
        }
        self.entries = entries;
    }
}

/// Overwriting the entry under `key`, or appending one where there is none, inserts into the map.
proof fn lemma_insert_as_map<K, V>(before: Seq<(K, V)>, after: Seq<(K, V)>, key: K, value: V)
    requires
        distinct_keys(before),
        has_key(before, key) ==> exists|i: int|
            0 <= i < before.len() && (#[trigger] before[i]).0 == key && after == before.update(
                i,
                (key, value),
            ),
        !has_key(before, key) ==> after == before.push((key, value)),
    ensures
        distinct_keys(after),
        as_map(after) == as_map(before).insert(key, value),
{
    if has_key(before, key) {
        let i = choose|i: int|
            0 <= i < before.len() && (#[trigger] before[i]).0 == key && after == before.update(
                i,
                (key, value),
            );
        assert forall|a: int, b: int| 0 <= a < b < after.len() implies (#[trigger] after[a]).0
            != (#[trigger] after[b]).0 by {
            assert(after[a].0 == before[a].0);
            assert(after[b].0 == before[b].0);
        }
        assert forall|k: K| has_key(after, k) <==> (k == key || has_key(before, k)) by {
            if has_key(after, k) {
                let p = position_of(after, k);
                assert(before[p].0 == k);
            }
            if has_key(before, k) {
                let p = position_of(before, k);
                assert(after[p].0 == k);
            }
        }
        assert forall|k: K| has_key(after, k) implies as_map(after)[k] == as_map(before).insert(
            key,
            value,
        )[k] by {
            let p = position_of(after, k);
            lemma_entry_in_map(after, p);
            if k != key {
                assert(p != i);
                lemma_entry_in_map(before, p);
            } else {
                if p < i {
                    assert(before[p].0 != before[i].0);
                } else if i < p {
                    assert(before[i].0 != before[p].0);
                }
            }
        }
    } else {
        let n = before.len() as int;
        assert forall|a: int, b: int| 0 <= a < b < after.len() implies (#[trigger] after[a]).0
            != (#[trigger] after[b]).0 by {
            assert(after[a] == before[a]);
            if b < n {
                assert(after[b] == before[b]);
            } else {
                assert(after[b].0 == key);
            }
        }
        assert forall|k: K| has_key(after, k) <==> (k == key || has_key(before, k)) by {
            if has_key(after, k) {
                let p = position_of(after, k);
                if p < n {
                    assert(before[p].0 == k);
                }
            }
            if has_key(before, k) {
                let p = position_of(before, k);
                assert(after[p].0 == k);
            }
            if k == key {
                assert(after[n].0 == k);
            }
        }
        assert forall|k: K| has_key(after, k) implies as_map(after)[k] == as_map(before).insert(
            key,
            value,
        )[k] by {
            let p = position_of(after, k);
            lemma_entry_in_map(after, p);
            if k != key {
                assert(p < n);
                assert(before[p] == after[p]);
                lemma_entry_in_map(before, p);
            } else {
                if p < n {
                    assert(before[p].0 == key);
                }
            }
        }
    }
    assert(as_map(after) =~= as_map(before).insert(key, value));
}

/// Moving the last entry into the place of the one under `key` removes `key` from the map.
proof fn lemma_remove_as_map<K, V>(before: Seq<(K, V)>, after: Seq<(K, V)>, key: K)
    requires
        distinct_keys(before),
        has_key(before, key) ==> exists|i: int|
            0 <= i < before.len() && (#[trigger] before[i]).0 == key && after == before.update(
                i,
                before.last(),
            ).drop_last(),
        !has_key(before, key) ==> after == before,
    ensures
        distinct_keys(after),
        as_map(after) == as_map(before).remove(key),
{
    if has_key(before, key) {
        let i = choose|i: int|
            0 <= i < before.len() && (#[trigger] before[i]).0 == key && after == before.update(
                i,
                before.last(),
            ).drop_last();
        let n = before.len() as int;
        let source = |a: int| if a == i { n - 1 } else { a };
        assert forall|a: int| 0 <= a < after.len() implies #[trigger] after[a] == before[source(a)]
            && after[a].0 != key by {
            if a == i {
                assert(before[i].0 != before[n - 1].0);
            } else if a < i {
                assert(before[a].0 != before[i].0);
            } else {
                assert(before[i].0 != before[a].0);
            }
        }
        assert forall|a: int, b: int| 0 <= a < b < after.len() implies (#[trigger] after[a]).0
            != (#[trigger] after[b]).0 by {
            let sa = source(a);
            let sb = source(b);
            assert(after[a] == before[sa]);
            assert(after[b] == before[sb]);
            if sa < sb {
                assert(before[sa].0 != before[sb].0);
            } else {
                assert(before[sb].0 != before[sa].0);
            }
        }
        assert forall|k: K| has_key(after, k) <==> (k != key && has_key(before, k)) by {
            if has_key(after, k) {
                let p = position_of(after, k);
                assert(after[p] == before[source(p)]);
                assert(before[source(p)].0 == k);
            }
            if k != key && has_key(before, k) {
                let p = position_of(before, k);
                if p == n - 1 {
                    assert(after[i] == before[source(i)]);
                    assert(after[i].0 == k);
                } else {
                    assert(after[p] == before[source(p)]);
                    assert(after[p].0 == k);
                }
            }
        }
        assert forall|k: K| has_key(after, k) implies as_map(after)[k] == as_map(before)[k] by {
            let p = position_of(after, k);
            lemma_entry_in_map(after, p);
            assert(after[p] == before[source(p)]);
            lemma_entry_in_map(before, source(p));
        }
    } else {
        assert forall|k: K| has_key(before, k) implies k != key by {}
    }
    assert(as_map(after) =~= as_map(before).remove(key));
}

} // verus!
