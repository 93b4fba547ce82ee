//! A finite map kept as a list of entries whose keys are pairwise distinct.
//!
//! The list is private; callers see the table as the `Map` it stands for.

use vstd::prelude::*;

verus! {

/// A value that can key a [`Table`]: one whose executable comparison decides
/// equality.
pub trait TableKey: Sized {
    /// Whether the two keys are the same key.
    fn same(&self, other: &Self) -> (same: bool)
        ensures
            same == (*self == *other),
    ;
}

impl TableKey for u32 {
    fn same(&self, other: &Self) -> (same: bool) {
        *self == *other
    }
}

spec fn keys_distinct<K, V>(entries: Seq<(K, V)>) -> bool {
    forall|i: int, j: int| 0 <= i < j < entries.len() ==> entries[i].0 != entries[j].0
}

spec fn holds_key<K, V>(entries: Seq<(K, V)>, key: K) -> bool {
    exists|i: int| 0 <= i < entries.len() && entries[i].0 == key
}

spec fn slot_of<K, V>(entries: Seq<(K, V)>, key: K) -> int {
    choose|i: int| 0 <= i < entries.len() && entries[i].0 == key
}

spec fn entry_map<K, V>(entries: Seq<(K, V)>) -> Map<K, V> {
    Map::new(|key: K| holds_key(entries, key), |key: K| entries[slot_of(entries, key)].1)
}

/// The entry at `at` is the one the map gives for its key.
proof fn lemma_entry_is_mapped<K, V>(entries: Seq<(K, V)>, at: int)
    requires
        keys_distinct(entries),
        0 <= at < entries.len(),
    ensures
        entry_map(entries).dom().contains(entries[at].0),
        entry_map(entries)[entries[at].0] == entries[at].1,
{
    let key = entries[at].0;
    assert(holds_key(entries, key));
    let chosen = slot_of(entries, key);
    assert(chosen == at) by {
        if chosen < at {
            assert(entries[chosen].0 != entries[at].0);
        } else if at < chosen {
            assert(entries[at].0 != entries[chosen].0);
        }
    }
}

/// Overwriting the value of an entry keeps the keys distinct and overwrites
/// the key in the map.
proof fn lemma_replace<K, V>(entries: Seq<(K, V)>, at: int, value: V)
    requires
        keys_distinct(entries),
        0 <= at < entries.len(),
    ensures
        keys_distinct(entries.update(at, (entries[at].0, value))),
        entry_map(entries.update(at, (entries[at].0, value))) == entry_map(entries).insert(
            entries[at].0,
            value,
        ),
{
    let key = entries[at].0;
    let after = entries.update(at, (key, value));
    assert(keys_distinct(after)) by {
        assert forall|i: int, j: int| 0 <= i < j < after.len() implies after[i].0 != after[j].0 by {
            assert(after[i].0 == entries[i].0);
            assert(after[j].0 == entries[j].0);
        }
    }
    let expected = entry_map(entries).insert(key, value);
    assert forall|k: K| entry_map(after).dom().contains(k) == expected.dom().contains(k) by {
        if holds_key(after, k) {
            let j = slot_of(after, k);
            assert(entries[j].0 == k);
        }
        if holds_key(entries, k) {
            let j = slot_of(entries, k);
            assert(after[j].0 == k);
        }
        if k == key {
            assert(after[at].0 == k);
        }
    }
    assert forall|k: K| entry_map(after).dom().contains(k) implies entry_map(after)[k]
        == expected[k] by {
        let j = slot_of(after, k);
        lemma_entry_is_mapped(after, j);
        if j != at {
            assert(after[j] == entries[j]);
            lemma_entry_is_mapped(entries, j);
            if j < at {
                assert(entries[j].0 != entries[at].0);
            } else {
                assert(entries[at].0 != entries[j].0);
            }
        }
    }
    assert(entry_map(after) =~= expected);
}

/// Appending an entry under a key the list does not hold keeps the keys
/// distinct and adds the key to the map.
proof fn lemma_append<K, V>(entries: Seq<(K, V)>, key: K, value: V)
    requires
        keys_distinct(entries),
        !holds_key(entries, key),
    ensures
        keys_distinct(entries.push((key, value))),
        entry_map(entries.push((key, value))) == entry_map(entries).insert(key, value),
{
    let after = entries.push((key, value));
    let last = entries.len() as int;
    assert(keys_distinct(after)) by {
        assert forall|i: int, j: int| 0 <= i < j < after.len() implies after[i].0 != after[j].0 by {
            assert(after[i] == entries[i]);
            if j < last {
                assert(after[j] == entries[j]);
            }
        }
    }
    let expected = entry_map(entries).insert(key, value);
    assert forall|k: K| entry_map(after).dom().contains(k) == expected.dom().contains(k) by {
        if holds_key(after, k) {
            let j = slot_of(after, k);
            if j < last {
                assert(entries[j].0 == k);
            }
        }
        if holds_key(entries, k) {
            let j = slot_of(entries, k);
            assert(after[j].0 == k);
        }
        if k == key {
            assert(after[last].0 == k);
        }
    }
    assert forall|k: K| entry_map(after).dom().contains(k) implies entry_map(after)[k]
        == expected[k] by {
        let j = slot_of(after, k);
        lemma_entry_is_mapped(after, j);
        if j < last {
            assert(after[j] == entries[j]);
            lemma_entry_is_mapped(entries, j);
        }
    }
    assert(entry_map(after) =~= expected);
}

/// The map that gives, for each key of `lists`, the sequence its list holds.
pub open spec fn list_views<K, T>(lists: Map<K, Vec<T>>) -> Map<K, Seq<T>> {
    Map::new(|key: K| lists.dom().contains(key), |key: K| lists[key]@)
}

/// No key has a list where there is no list.
pub proof fn lemma_list_views_empty<K, T>()
    ensures
        list_views(Map::<K, Vec<T>>::empty()) == Map::<K, Seq<T>>::empty(),
{
    assert(list_views(Map::<K, Vec<T>>::empty()) =~= Map::<K, Seq<T>>::empty());
}

/// Storing a list under a key stores its sequence under that key.
pub proof fn lemma_list_views_insert<K, T>(lists: Map<K, Vec<T>>, key: K, list: Vec<T>)
    ensures
        list_views(lists.insert(key, list)) == list_views(lists).insert(key, list@),
{
    assert(list_views(lists.insert(key, list)) =~= list_views(lists).insert(key, list@));
}

/// A copy of a list of plain values.
pub fn duplicate<T: Copy>(items: &Vec<T>) -> (copy: Vec<T>)
    ensures
        copy@ == items@,
{
    let mut copy: Vec<T> = Vec::new();
    let mut i: usize = 0;
    while i < items.len()
        invariant
            i <= items@.len(),
            copy@ == items@.take(i as int),
        decreases items@.len() - i,
    {
        copy.push(items[i]);
        assert(items@.take(i as int).push(items@[i as int]) =~= items@.take(i + 1));
        i += 1;
    }
    assert(items@.take(items@.len() as int) =~= items@);
    copy
}

/// A finite map from `K` to `V`.
pub struct Table<K: TableKey, V> {
    entries: Vec<(K, V)>,
}

impl<K: TableKey, V> View for Table<K, V> {
    type V = Map<K, V>;

    open spec fn view(&self) -> Map<K, V> {
        self.as_map()
    }
}

impl<K: TableKey, V> Table<K, V> {
    #[verifier::type_invariant]
    spec fn well_formed(self) -> bool {
        keys_distinct(self.entries@)
    }

    /// The map the table stands for.
    pub closed spec fn as_map(self) -> Map<K, V> {
        entry_map(self.entries@)
    }

    /// The table that holds nothing.
    pub fn new() -> (table: Self)
        ensures
            table@ == Map::<K, V>::empty(),
    {
        let table = Table { entries: Vec::new() };
        assert(table.as_map() =~= Map::<K, V>::empty());
        table
    }

    fn position(&self, key: &K) -> (at: Option<usize>)
        ensures
            match at {
                Some(i) => i < self.entries@.len() && self.entries@[i as int].0 == *key,
                None => !holds_key(self.entries@, *key),
            },
    {
        let mut i: usize = 0;
        while i < self.entries.len()
            invariant
                i <= self.entries@.len(),
                forall|j: int| 0 <= j < i ==> self.entries@[j].0 != *key,
            decreases self.entries@.len() - i,
        {
            if self.entries[i].0.same(key) {
                return Some(i);
            }
            i += 1;
        }
        None
    }

    /// The value stored under `key`, if there is one.
    pub fn get(&self, key: &K) -> (found: Option<&V>)
        ensures
            match found {
                Some(value) => self@.dom().contains(*key) && *value == self@[*key],
                None => !self@.dom().contains(*key),
            },
    {
        proof {
            use_type_invariant(self);
        }
        match self.position(key) {
            Some(i) => {
                proof {
                    lemma_entry_is_mapped(self.entries@, i as int);
                }
                Some(&self.entries[i].1)
            },
            None => None,
        }
    }

    /// Stores `value` under `key`, in place of what was stored there.
    pub fn insert(&mut self, key: K, value: V)
        ensures
            final(self)@ == old(self)@.insert(key, value),
    {
        proof {
            use_type_invariant(&*self);
        }
        let at = self.position(&key);
        let mut entries: Vec<(K, V)> = Vec::new();
        std::mem::swap(&mut entries, &mut self.entries);
        proof {
            match at {
                Some(i) => lemma_replace(entries@, i as int, value),
                None => lemma_append(entries@, key, value),
            }
        }
        match at {
            Some(i) => {
                entries[i] = (key, value);
            },
            None => {
                entries.push((key, value));
            },
        }
        self.entries = entries;
    }
}

} // verus!
