//! Which observers subscribed to which key.

use crate::types::{AssetIdentifier, ContractEventKey, QualifiedContractIdentifier};
use std::collections::HashSet;
use vstd::prelude::*;

verus! {

broadcast use vstd::std_specs::hash::group_hash_axioms;

/// A key that observers subscribe to. Two keys are the same if they say the
/// same.
pub trait SubscriptionKey: View + Sized {
    fn same(&self, other: &Self) -> (result: bool)
        ensures
            result == (self@ == other@),
    ;

    fn duplicate(&self) -> (copy: Self)
        ensures
            copy@ == self@,
    ;
}

fn same_contract(a: &QualifiedContractIdentifier, b: &QualifiedContractIdentifier) -> (result: bool)
    ensures
        result == (a@ == b@),
{
    a.issuer == b.issuer && a.name == b.name
}

impl SubscriptionKey for ContractEventKey {
    fn same(&self, other: &Self) -> (result: bool) {
        same_contract(&self.contract_identifier, &other.contract_identifier) && self.event_name
            == other.event_name
    }

    fn duplicate(&self) -> (copy: Self) {
        self.clone()
    }
}

impl SubscriptionKey for AssetIdentifier {
    fn same(&self, other: &Self) -> (result: bool) {
        same_contract(&self.contract_identifier, &other.contract_identifier) && self.asset_name
            == other.asset_name
    }

    fn duplicate(&self) -> (copy: Self) {
        self.clone()
    }
}

/// Copies a set of observer indexes.
pub fn copy_indexes(indexes: &HashSet<u16>) -> (copy: HashSet<u16>)
    ensures
        copy@ == indexes@,
{
    let mut copy: HashSet<u16> = HashSet::new();
    for index in it: indexes.iter()
        invariant
            it.seq().unref().to_set() == indexes@,
            forall|o: u16| #[trigger]
                copy@.contains(o) <==> exists|k: int|
                    0 <= k < it.index() && #[trigger] it.seq().unref()[k] == o,
    {
        copy.insert(*index);
    }
    copy
}

/// Whether `key` stands at position `i` of the entries.
spec fn stands_at<K: SubscriptionKey>(entries: Seq<(K, HashSet<u16>)>, key: K::V, i: int) -> bool {
    0 <= i < entries.len() && entries[i].0@ == key
}

/// What the entries map each key to.
spec fn entry_map<K: SubscriptionKey>(entries: Seq<(K, HashSet<u16>)>) -> Map<K::V, Set<u16>> {
    Map::new(
        |key: K::V| exists|i: int| stands_at(entries, key, i),
        |key: K::V| entries[choose|i: int| stands_at(entries, key, i)].1@,
    )
}

/// Whether no key stands at two positions.
spec fn distinct_keys<K: SubscriptionKey>(entries: Seq<(K, HashSet<u16>)>) -> bool {
    forall|i: int, j: int|
        0 <= i < entries.len() && 0 <= j < entries.len() && (#[trigger] entries[i]).0@ == (
        #[trigger] entries[j]).0@ ==> i == j
}

/// Entries with distinct keys map each of their keys to its own set.
proof fn lemma_entry_map<K: SubscriptionKey>(entries: Seq<(K, HashSet<u16>)>)
    requires
        distinct_keys(entries),
    ensures
        forall|i: int|
            0 <= i < entries.len() ==> entry_map(entries).contains_key(
                (#[trigger] entries[i]).0@,
            ) && entry_map(entries)[entries[i].0@] == entries[i].1@,
        forall|key: K::V| #[trigger]
            entry_map(entries).contains_key(key) ==> exists|i: int|
                0 <= i < entries.len() && (#[trigger] entries[i]).0@ == key,
{
    assert forall|i: int| 0 <= i < entries.len() implies entry_map(entries).contains_key(
        (#[trigger] entries[i]).0@,
    ) && entry_map(entries)[entries[i].0@] == entries[i].1@ by {
        assert(stands_at(entries, entries[i].0@, i));
    }
}

/// For each key that somebody subscribed to, the indexes of the observers that
/// did.
#[derive(Debug)]
pub struct SubscriptionTable<K> {
    entries: Vec<(K, HashSet<u16>)>,
}

impl<K: SubscriptionKey> View for SubscriptionTable<K> {
    type V = Map<K::V, Set<u16>>;

    closed spec fn view(&self) -> Map<K::V, Set<u16>> {
        entry_map(self.entries@)
    }
}

/// The indexes that a table holds for a key: none, if it does not hold the key.
pub open spec fn indexes_at<V>(table: Map<V, Set<u16>>, key: V) -> Set<u16> {
    if table.contains_key(key) {
        table[key]
    } else {
        Set::empty()
    }
}

impl<K: SubscriptionKey> SubscriptionTable<K> {
    /// No key has two entries, and no entry has an empty set.
    pub closed spec fn wf(&self) -> bool {
        &&& distinct_keys(self.entries@)
        &&& forall|i: int|
            0 <= i < self.entries@.len() ==> (#[trigger] self.entries@[i]).1@ != Set::<
                u16,
            >::empty()
    }

    /// A table holds no key to which nobody subscribed.
    pub proof fn lemma_no_set_is_empty(&self)
        requires
            self.wf(),
        ensures
            forall|key: K::V| #[trigger]
                self@.contains_key(key) ==> self@[key] != Set::<u16>::empty(),
    {
        lemma_entry_map(self.entries@);
    }

    /// A table in which nobody subscribed to anything.
    pub fn new() -> (table: Self)
        ensures
            table.wf(),
            table@ == Map::<K::V, Set<u16>>::empty(),
    {
        let table: Self = SubscriptionTable { entries: Vec::new() };
        proof {
            lemma_entry_map(table.entries@);
        }
        table
    }

    /// A table with the same subscriptions.
    pub fn duplicate(&self) -> (copy: Self)
        ensures
            self.wf() ==> copy.wf() && copy@ == self@,
    {
        let mut entries: Vec<(K, HashSet<u16>)> = Vec::new();
        for i in 0..self.entries.len()
            invariant
                entries@.len() == i,
                forall|j: int|
                    0 <= j < i ==> (#[trigger] entries@[j]).0@ == self.entries@[j].0@
                        && entries@[j].1@ == self.entries@[j].1@,
        {
            entries.push((self.entries[i].0.duplicate(), copy_indexes(&self.entries[i].1)));
        }
        let copy = SubscriptionTable { entries };
        proof {
            if self.wf() {
                lemma_entry_map(self.entries@);
                lemma_entry_map(copy.entries@);
                assert forall|key: K::V| #[trigger]
                    self@.contains_key(key) implies copy@.contains_key(key) by {
                    let i = choose|i: int| stands_at(self.entries@, key, i);
                    assert(copy.entries@[i].0@ == key);
                }
            }
        }
        copy
    }

    fn find(&self, key: &K) -> (position: Option<usize>)
        ensures
            match position {
                Some(i) => i < self.entries@.len() && self.entries@[i as int].0@ == key@,
                None => forall|i: int|
                    0 <= i < self.entries@.len() ==> (#[trigger] self.entries@[i]).0@ != key@,
            },
    {
        for i in 0..self.entries.len()
            invariant
                forall|j: int| 0 <= j < i ==> (#[trigger] self.entries@[j]).0@ != key@,
        {
            if self.entries[i].0.same(key) {
                return Some(i);
            }
        }
        None
    }

    /// The observers that subscribed to `key`, if any did.
    pub fn get(&self, key: &K) -> (observers: Option<&HashSet<u16>>)
        requires
            self.wf(),
        ensures
            match observers {
                Some(set) => self@.contains_key(key@) && set@ == self@[key@],
                None => !self@.contains_key(key@),
            },
    {
        proof {
            lemma_entry_map(self.entries@);
        }
        match self.find(key) {
            Some(i) => Some(&self.entries[i].1),
            None => None,
        }
    }

    /// Subscribes the observer `index` to `key`.
    pub fn insert(&mut self, key: &K, index: u16)
        requires
            old(self).wf(),
        ensures
            final(self).wf(),
            final(self)@ == old(self)@.insert(key@, indexes_at(old(self)@, key@).insert(index)),
    {
        let ghost before = self.entries@;
        let position = self.find(key);
        match position {
            Some(i) => {
                self.entries[i].1.insert(index);
            },
            None => {
                let mut observers: HashSet<u16> = HashSet::new();
                observers.insert(index);
                self.entries.push((key.duplicate(), observers));
            },
        }
        proof {
            let after = self.entries@;
            let changed = match position {
                Some(i) => i as int,
                None => before.len() as int,
            };
            assert(after[changed].1@.contains(index));
            lemma_entry_map(before);
            lemma_entry_map(after);
            let target = old(self)@.insert(key@, indexes_at(old(self)@, key@).insert(index));
            assert forall|k: K::V| self@.contains_key(k) == target.contains_key(k) by {
                if old(self)@.contains_key(k) {
                    let j = choose|j: int| 0 <= j < before.len() && (#[trigger] before[j]).0@ == k;
                    assert(after[j].0@ == k);
                }
            }
        }
    }
}

} // verus!
