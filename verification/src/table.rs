//! Tables keyed by small values that the standard maps cannot be keyed by.

use crate::addr::SocketAddr;
use vstd::prelude::*;

verus! {

/// What a table can be keyed by.
pub trait Key: Copy {
    /// Whether two keys are the same.
    fn same(&self, other: &Self) -> (same: bool)
        ensures
            same == (*self == *other),
    ;
}

impl Key for SocketAddr {
    fn same(&self, other: &Self) -> (same: bool) {
        *self == *other
    }
}

/// A table with at most one entry for each key.
pub struct Table<K: Key, V> {
    entries: Vec<(K, V)>,
}

/// Whether some entry has a key.
spec fn has_key<K, V>(entries: Seq<(K, V)>, key: K) -> bool {
    exists|i: int| 0 <= i < entries.len() && (#[trigger] entries[i]).0 == key
}

/// Where the entry of a key stands.
spec fn place<K, V>(entries: Seq<(K, V)>, key: K) -> int {
    choose|i: int| 0 <= i < entries.len() && (#[trigger] entries[i]).0 == key
}

/// What the entries say, key by key.
spec fn entry_map<K, V>(entries: Seq<(K, V)>) -> Map<K, V> {
    Map::new(|key: K| has_key(entries, key), |key: K| entries[place(entries, key)].1)
}

/// Whether no two entries have one key.
spec fn keys_differ<K, V>(entries: Seq<(K, V)>) -> bool {
    forall|i: int, j: int|
        0 <= i < entries.len() && 0 <= j < entries.len() && (#[trigger] entries[i]).0 == (
        #[trigger] entries[j]).0 ==> i == j
}

proof fn lemma_place<K, V>(entries: Seq<(K, V)>, i: int)
    requires
        keys_differ(entries),
        0 <= i < entries.len(),
    ensures
        entry_map(entries).dom().contains(entries[i].0),
        entry_map(entries)[entries[i].0] == entries[i].1,
{
    assert(has_key(entries, entries[i].0));
}

proof fn lemma_removed<K, V>(entries: Seq<(K, V)>, i: int)
    requires
        keys_differ(entries),
        0 <= i < entries.len(),
    ensures
        ({
            let after = entries.update(i, entries.last()).drop_last();
            &&& keys_differ(after)
            &&& entry_map(after) == entry_map(entries).remove(entries[i].0)
        }),
{
    let after = entries.update(i, entries.last()).drop_last();
    let last = entries.len() - 1;
    assert forall|a: int, b: int|
        0 <= a < after.len() && 0 <= b < after.len() && (#[trigger] after[a]).0 == (
        #[trigger] after[b]).0 implies a == b by {
        let x = if a == i {
            last
        } else {
            a
        };
        let y = if b == i {
            last
        } else {
            b
        };
        assert(after[a] == entries[x]);
        assert(after[b] == entries[y]);
    }
    let removed = entry_map(entries).remove(entries[i].0);
    assert forall|key: K| entry_map(after).dom().contains(key) implies removed.dom().contains(key)
        && entry_map(after)[key] == removed[key] by {
        let a = place(after, key);
        let x = if a == i {
            last
        } else {
            a
        };
        assert(after[a] == entries[x]);
        lemma_place(after, a);
        lemma_place(entries, x);
    }
    assert forall|key: K| removed.dom().contains(key) implies entry_map(after).dom().contains(
        key,
    ) by {
        let x = place(entries, key);
        let a = if x == last {
            i
        } else {
            x
        };
        assert(after[a] == entries[x]);
        lemma_place(after, a);
    }
    assert(entry_map(after) =~= removed);
}

proof fn lemma_pushed<K, V>(entries: Seq<(K, V)>, key: K, value: V)
    requires
        keys_differ(entries),
        !entry_map(entries).dom().contains(key),
    ensures
        keys_differ(entries.push((key, value))),
        entry_map(entries.push((key, value))) == entry_map(entries).insert(key, value),
{
    let after = entries.push((key, value));
    assert(after[entries.len() as int].0 == key);
    assert forall|a: int, b: int|
        0 <= a < after.len() && 0 <= b < after.len() && (#[trigger] after[a]).0 == (
        #[trigger] after[b]).0 implies a == b by {
        if a < entries.len() {
            assert(after[a] == entries[a]);
            lemma_place(entries, a);
        }
        if b < entries.len() {
            assert(after[b] == entries[b]);
            lemma_place(entries, b);
        }
    }
    let inserted = entry_map(entries).insert(key, value);
    assert forall|k: K| entry_map(after).dom().contains(k) implies inserted.dom().contains(k)
        && entry_map(after)[k] == inserted[k] by {
        let a = place(after, k);
        lemma_place(after, a);
        if a < entries.len() {
            assert(after[a] == entries[a]);
            lemma_place(entries, a);
        }
    }
    assert forall|k: K| inserted.dom().contains(k) implies entry_map(after).dom().contains(k) by {
        if k == key {
            lemma_place(after, entries.len() as int);
        } else {
            let x = place(entries, k);
            assert(after[x] == entries[x]);
            lemma_place(after, x);
        }
    }
    assert(entry_map(after) =~= inserted);
}

/// There are as many entries as keys that have one.
proof fn lemma_count<K, V>(entries: Seq<(K, V)>)
    requires
        keys_differ(entries),
    ensures
        entry_map(entries).dom().finite(),
        entry_map(entries).dom().len() == entries.len(),
{
    let keys = entries.map_values(|entry: (K, V)| entry.0);
    assert forall|i: int, j: int|
        0 <= i < keys.len() && 0 <= j < keys.len() && i != j implies keys[i] != keys[j] by {
        assert(entries[i].0 != entries[j].0);
    }
    keys.unique_seq_to_set();
    assert forall|key: K| entry_map(entries).dom().contains(key) <==> keys.to_set().contains(
        key,
    ) by {
        if entry_map(entries).dom().contains(key) {
            assert(keys[place(entries, key)] == key);
        }
        if keys.contains(key) {
            let i = choose|i: int| 0 <= i < keys.len() && keys[i] == key;
            assert(entries[i].0 == key);
        }
    }
    assert(entry_map(entries).dom() =~= keys.to_set());
}

impl<K: Key, V> View for Table<K, V> {
    type V = Map<K, V>;

    closed spec fn view(&self) -> Map<K, V> {
        entry_map(self.entries@)
    }
}

impl<K: Key, V> Table<K, V> {
    /// No key has two entries.
    pub closed spec fn wf(&self) -> bool {
        keys_differ(self.entries@)
    }

    /// How many entries there are.
    pub closed spec fn count(&self) -> nat {
        self.entries@.len()
    }

    /// The entry at a place.
    pub closed spec fn entry(&self, i: int) -> (K, V) {
        self.entries@[i]
    }

    /// A table without entries.
    pub fn new() -> (table: Self)
        ensures
            table.wf(),
            table@ == Map::<K, V>::empty(),
            table.count() == 0,
    {
        let table = Table { entries: Vec::new() };
        proof {
            assert(table@ =~= Map::<K, V>::empty());
        }
        table
    }

    /// How many entries there are: as many as keys that have one.
    pub fn len(&self) -> (n: usize)
        requires
            self.wf(),
        ensures
            n == self.count(),
            n == self@.dom().len(),
            self@.dom().finite(),
    {
        proof {
            lemma_count(self.entries@);
        }
        self.entries.len()
    }

    /// The entry at a place. Every entry has one.
    pub fn at(&self, i: usize) -> (entry: &(K, V))
        requires
            self.wf(),
            i < self.count(),
        ensures
            *entry == self.entry(i as int),
            self@.dom().contains(entry.0),
            self@[entry.0] == entry.1,
    {
        proof {
            lemma_place(self.entries@, i as int);
        }
        &self.entries[i]
    }

    /// Every key that has an entry has it at one of the places.
    pub proof fn law_entries_have_places(&self, key: K) -> (i: int)
        requires
            self.wf(),
            self@.dom().contains(key),
        ensures
            0 <= i < self.count(),
            self.entry(i) == (key, self@[key]),
    {
        let i = place(self.entries@, key);
        lemma_place(self.entries@, i);
        i
    }

    fn find(&self, key: &K) -> (found: Option<usize>)
        requires
            self.wf(),
        ensures
            found is Some <==> self@.dom().contains(*key),
            found matches Some(i) ==> i < self.entries@.len() && self.entries@[i as int].0 == *key
                && self@[*key] == self.entries@[i as int].1,
    {
        let mut i: usize = 0;
        while i < self.entries.len()
            invariant
                self.wf(),
                i <= self.entries@.len(),
                forall|j: int| 0 <= j < i ==> (#[trigger] self.entries@[j]).0 != *key,
            decreases self.entries@.len() - i,
        {
            if self.entries[i].0.same(key) {
                proof {
                    lemma_place(self.entries@, i as int);
                }
                return Some(i);
            }
            i = i + 1;
        }
        None
    }

    /// Whether a key has an entry.
    pub fn contains_key(&self, key: &K) -> (contains: bool)
        requires
            self.wf(),
        ensures
            contains == self@.dom().contains(*key),
    {
        self.find(key).is_some()
    }

    /// The entry of a key.
    pub fn get(&self, key: &K) -> (value: Option<&V>)
        requires
            self.wf(),
        ensures
            value is Some <==> self@.dom().contains(*key),
            value matches Some(v) ==> *v == self@[*key],
    {
        match self.find(key) {
            Some(i) => Some(&self.entries[i].1),
            None => None,
        }
    }

    /// Takes the entry of a key away.
    pub fn remove(&mut self, key: &K) -> (value: Option<V>)
        requires
            old(self).wf(),
        ensures
            final(self).wf(),
            final(self)@ == old(self)@.remove(*key),
            value is Some <==> old(self)@.dom().contains(*key),
            value matches Some(v) ==> v == old(self)@[*key],
    {
        match self.find(key) {
            Some(i) => {
                let (_, value) = self.entries.swap_remove(i);
                proof {
                    lemma_removed(old(self).entries@, i as int);
                }
                Some(value)
            },
            None => {
                proof {
                    assert(self@ =~= old(self)@.remove(*key));
                }
                None
            },
        }
    }

    /// Gives a key an entry, and hands back the one it had.
    pub fn insert(&mut self, key: K, value: V) -> (before: Option<V>)
        requires
            old(self).wf(),
        ensures
            final(self).wf(),
            final(self)@ == old(self)@.insert(key, value),
            before is Some <==> old(self)@.dom().contains(key),
            before matches Some(v) ==> v == old(self)@[key],
    {
        let before = self.remove(&key);
        let ghost kept = self.entries@;
        self.entries.push((key, value));
        proof {
            lemma_pushed(kept, key, value);
            assert(self@ =~= old(self)@.insert(key, value));
        }
        before
    }
}

} // verus!
