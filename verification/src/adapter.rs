//! The adapter: a container with a presence index beside it.

use crate::collection::entries_after_insert;
use crate::collection::entries_after_remove;
use crate::collection::displaced_by_insert;
use crate::collection::taken_by_remove;
use crate::collection::Collection;
use crate::key::Key;
use crate::key::KeyRangeError;
use crate::laws::lemma_insert_keeps_consistent;
use crate::laws::lemma_remove_keeps_consistent;
use crate::presence::ascending_slots;
use crate::presence::slot;
use crate::presence::PresenceIndex;
use std::collections::BTreeMap;
use std::collections::HashMap;
use std::collections::VecDeque;
use vstd::prelude::*;

verus! {

/// What an adapter is, to its callers.
#[verifier::reject_recursive_types(K)]
pub struct State<K, V> {
    /// The keys that the presence index reports.
    pub present: Set<K>,
    /// The entries of the backing container.
    pub entries: Map<K, V>,
}

/// One mutation of an adapter.
pub enum Operation<K, V> {
    /// `insert` with this key and value.
    Insert(K, V),
    /// `remove` with this key.
    Remove(K),
}

/// The insertions of the pairs, in their order.
pub open spec fn insertions<K, V>(pairs: Seq<(K, V)>) -> Seq<Operation<K, V>> {
    Seq::new(pairs.len(), |j: int| Operation::Insert(pairs[j].0, pairs[j].1))
}

impl<K: Key, V> State<K, V> {
    /// The index reports exactly the keys that the container holds.
    pub open spec fn consistent(self) -> bool {
        self.present == self.entries.dom()
    }

    /// The state after `insert(key, value)` on a container of type `C`.
    pub open spec fn after_insert<C: Collection<K, Item = V>>(self, key: K, value: V) -> Self {
        if slot(key) is Some {
            State {
                present: self.present.insert(key),
                entries: entries_after_insert::<K, C>(self.entries, key, value),
            }
        } else {
            self
        }
    }

    /// The state after `remove(key)` on a container of type `C`.
    pub open spec fn after_remove<C: Collection<K, Item = V>>(self, key: K) -> Self {
        if key.index_of() is Some {
            State {
                present: self.present.remove(key),
                entries: entries_after_remove::<K, C>(self.entries, key),
            }
        } else {
            self
        }
    }

    /// The state after `operation` on a container of type `C`.
    pub open spec fn after<C: Collection<K, Item = V>>(self, operation: Operation<K, V>) -> Self {
        match operation {
            Operation::Insert(key, value) => self.after_insert::<C>(key, value),
            Operation::Remove(key) => self.after_remove::<C>(key),
        }
    }

    /// The state after the operations in turn on a container of type `C`.
    pub open spec fn after_all<C: Collection<K, Item = V>>(
        self,
        operations: Seq<Operation<K, V>>,
    ) -> Self
        decreases operations.len(),
    {
        if operations.len() == 0 {
            self
        } else {
            self.after_all::<C>(operations.drop_last()).after::<C>(operations.last())
        }
    }

    /// Whether a container of type `C` in this state carries `operation`
    /// out.
    pub open spec fn carries_out<C: Collection<K, Item = V>>(
        self,
        operation: Operation<K, V>,
    ) -> bool {
        match operation {
            Operation::Insert(key, _) => C::admits(self.entries, key),
            Operation::Remove(key) => C::releases(self.entries, key),
        }
    }

    /// Whether a container of type `C` carries each of the operations out in
    /// the state that the operations before it lead to.
    pub open spec fn carries_all_out<C: Collection<K, Item = V>>(
        self,
        operations: Seq<Operation<K, V>>,
    ) -> bool
        decreases operations.len(),
    {
        operations.len() > 0 ==> {
            &&& self.carries_all_out::<C>(operations.drop_last())
            &&& self.after_all::<C>(operations.drop_last()).carries_out::<C>(operations.last())
        }
    }
}

/// Whether `entries` are what a default container of type `C` holds.
pub open spec fn default_entries<K, C: Collection<K> + Default>(entries: Map<K, C::Item>) -> bool {
    exists|start: C| #[trigger] call_ensures(C::default, (), start) && start.entries() == entries
}

/// Whether the key of every pair has a slot in the index.
pub open spec fn all_have_slots<K: Key, V>(pairs: Seq<(K, V)>) -> bool {
    forall|j: int| 0 <= j < pairs.len() ==> slot((#[trigger] pairs[j]).0) is Some
}

/// A container of type `C` with a presence index over its keys.
///
/// The index answers whether a key has a value and lists the keys in
/// ascending order; the container is asked for values only.
#[derive(Debug, PartialEq, Eq)]
pub struct BitSetCollection<K: Key, C: Collection<K>> {
    bitset: PresenceIndex<K>,
    collection: C,
}

/// An adapter over a vector.
pub type BitSetVec<K, V> = BitSetCollection<K, Vec<V>>;

/// An adapter over a shared slice.
pub type BitSetSlice<'a, K, V> = BitSetCollection<K, &'a [V]>;

/// An adapter over an exclusive slice.
pub type BitSetMutSlice<'a, K, V> = BitSetCollection<K, &'a mut [V]>;

/// An adapter over a double-ended queue.
pub type BitSetVecDeque<K, V> = BitSetCollection<K, VecDeque<V>>;

/// An adapter over an ordered map.
pub type BitSetBTreeMap<K, V> = BitSetCollection<K, BTreeMap<K, V>>;

/// An adapter over a hash map.
pub type BitSetHashMap<K, V> = BitSetCollection<K, HashMap<K, V>>;

impl<K: Key, C: Collection<K>> View for BitSetCollection<K, C> {
    type V = State<K, C::Item>;

    open spec fn view(&self) -> State<K, C::Item> {
        State { present: self.index(), entries: self.backing().entries() }
    }
}

impl<K: Key, C: Collection<K> + Clone> Clone for BitSetCollection<K, C> {
    /// A second adapter with the same index over a clone of the container.
    fn clone(&self) -> (copy: Self)
        ensures
            copy@.present == self@.present,
            cloned(self.backing(), copy.backing()),
    {
        BitSetCollection { bitset: self.bitset.clone(), collection: self.collection.clone() }
    }
}

impl<K: Key, C: Collection<K>> BitSetCollection<K, C> {
    /// The keys that the presence index holds.
    pub closed spec fn index(&self) -> Set<K> {
        self.bitset@
    }

    /// The backing container.
    pub closed spec fn backing(&self) -> C {
        self.collection
    }

    /// Every key that the index reports has a slot.
    pub proof fn lemma_reported_keys_have_slots(&self)
        ensures
            forall|k: K| self@.present.contains(k) ==> slot(k) is Some,
    {
        self.bitset.lemma_keys_have_slots();
    }

    /// Wraps a container: scans its keys once and marks each in a new index.
    /// Fails where a key of the container has no slot in the index.
    pub fn new(collection: C) -> (r: Result<Self, KeyRangeError>)
        ensures
            match r {
                Ok(adapter) => adapter.backing() == collection && adapter@.consistent(),
                Err(_) => exists|k: K| collection.entries().contains_key(k) && slot(k) is None,
            },
            r is Ok <==> forall|k: K| collection.entries().contains_key(k) ==> slot(k) is Some,
    {
        let keys = collection.keys();
        let mut bitset: PresenceIndex<K> = PresenceIndex::new();
        let mut n: usize = 0;
        while n < keys.len()
            invariant
                n <= keys.len(),
                forall|k: K| keys@.contains(k) <==> collection.entries().contains_key(k),
                forall|k: K| bitset@.contains(k) <==> keys@.take(n as int).contains(k),
                forall|j: int| 0 <= j < n ==> slot(#[trigger] keys@[j]) is Some,
            decreases keys.len() - n,
        {
            let key: K = keys[n];
            assert(keys@.contains(key));
            if bitset.insert(key).is_err() {
                return Err(KeyRangeError);
            }
            proof {
                let before = keys@.take(n as int);
                let after = keys@.take(n + 1);
                assert(after =~= before.push(key));
                assert forall|k: K| bitset@.contains(k) <==> after.contains(k) by {
                    if before.contains(k) {
                        let j = choose|j: int| 0 <= j < before.len() && before[j] == k;
                        assert(after[j] == k);
                    }
                    if k == key {
                        assert(after[n as int] == k);
                    }
                }
            }
            n = n + 1;
        }
        proof {
            assert(keys@.take(n as int) =~= keys@);
            assert(bitset@ =~= collection.entries().dom());
            assert forall|k: K| collection.entries().contains_key(k) implies slot(k) is Some by {
                let j = choose|j: int| 0 <= j < keys@.len() && keys@[j] == k;
                assert(slot(keys@[j]) is Some);
            }
        }
        Ok(BitSetCollection { bitset, collection })
    }

    /// The value under `key`, if the index reports the key: the container
    /// is asked only then, and by the unchecked path. So the container must
    /// hold a value under `key` if the index reports it, as it does in every
    /// consistent state. A key that the index does not report gives `None`,
    /// also where it lies beyond the capacity of the index.
    pub fn get(&self, key: &K) -> (r: Result<Option<&C::Item>, KeyRangeError>)
        requires
            self@.present.contains(*key) ==> self@.entries.contains_key(*key),
        ensures
            r == match key.index_of() {
                Some(_) => Ok::<Option<&C::Item>, KeyRangeError>(
                    if self@.present.contains(*key) {
                        Some(&self@.entries[*key])
                    } else {
                        None
                    },
                ),
                None => Err(KeyRangeError),
            },
            slot(*key) is None ==> !(r matches Ok(Some(_))),
    {
        proof {
            self.lemma_reported_keys_have_slots();
        }
        match self.bitset.contains(*key) {
            Ok(true) => Ok(Some(self.collection.get_unchecked(key))),
            Ok(false) => Ok(None),
            Err(e) => Err(e),
        }
    }

    /// Stores `value` under `key`: marks the key in the index, then hands
    /// both to the container, and returns what the container returns.
    pub fn insert(&mut self, key: K, value: C::Item) -> (r: Result<Option<C::Item>, KeyRangeError>)
        ensures
            final(self)@ == old(self)@.after_insert::<C>(key, value),
            r == match slot(key) {
                Some(_) => Ok::<Option<C::Item>, KeyRangeError>(
                    displaced_by_insert::<K, C>(old(self)@.entries, key),
                ),
                None => Err(KeyRangeError),
            },
            old(self)@.consistent() && C::admits(old(self)@.entries, key)
                ==> final(self)@.consistent(),
    {
        proof {
            if self@.consistent() && C::admits(self@.entries, key) {
                lemma_insert_keeps_consistent::<K, C>(self@, key, value);
            }
        }
        match self.bitset.insert(key) {
            Ok(_) => Ok(self.collection.insert(key, value)),
            Err(e) => Err(e),
        }
    }

    /// Deletes the entry of `key`: clears the key in the index, then hands it
    /// to the container, and returns what the container returns. This is
    /// done for every key that has an integer form, reported or not.
    pub fn remove(&mut self, key: &K) -> (r: Result<Option<C::Item>, KeyRangeError>)
        ensures
            final(self)@ == old(self)@.after_remove::<C>(*key),
            r == match key.index_of() {
                Some(_) => Ok::<Option<C::Item>, KeyRangeError>(
                    taken_by_remove::<K, C>(old(self)@.entries, *key),
                ),
                None => Err(KeyRangeError),
            },
            old(self)@.consistent() && C::releases(old(self)@.entries, *key)
                ==> final(self)@.consistent(),
    {
        proof {
            if self@.consistent() && C::releases(self@.entries, *key) {
                lemma_remove_keeps_consistent::<K, C>(self@, *key);
            }
        }
        match self.bitset.remove(*key) {
            Ok(_) => Ok(self.collection.remove(key)),
            Err(e) => Err(e),
        }
    }

    /// The keys that the index reports, each once, by ascending slot,
    /// whatever the order of the container.
    pub fn keys(&self) -> (keys: Vec<K>)
        ensures
            ascending_slots(keys@),
            forall|k: K| keys@.contains(k) <==> self@.present.contains(k),
    {
        self.bitset.keys()
    }

    /// Whether the container holds a value under `key`, asked of the
    /// container itself. In a consistent state this is what `contains_key`
    /// answers from the index.
    pub fn stored(&self, key: &K) -> (r: bool)
        ensures
            r == self@.entries.contains_key(*key),
    {
        self.collection.contains_key(key)
    }

    /// Whether the index reports `key`. The container is not asked. A key
    /// that has an integer form is an error nowhere: beyond the capacity of
    /// the index it is simply not reported.
    pub fn contains_key(&self, key: &K) -> (r: Result<bool, KeyRangeError>)
        ensures
            r == match key.index_of() {
                Some(_) => Ok::<bool, KeyRangeError>(self@.present.contains(*key)),
                None => Err(KeyRangeError),
            },
            slot(*key) is None ==> r != Ok::<bool, KeyRangeError>(true),
    {
        self.bitset.contains(*key)
    }
}

impl<K: Key, C: Collection<K> + Default> BitSetCollection<K, C> {
    /// Builds an adapter from pairs: starts from a default container and an
    /// empty index and inserts the pairs in turn, so that a later pair
    /// replaces an earlier one with the same key. Fails where a key has no
    /// slot in the index.
    pub fn from_iter(pairs: Vec<(K, C::Item)>) -> (r: Result<Self, KeyRangeError>)
        ensures
            match r {
                Ok(adapter) => all_have_slots(pairs@) && exists|start: State<K, C::Item>|
                    start.present == Set::<K>::empty() && #[trigger] default_entries::<K, C>(
                        start.entries,
                    ) && adapter@ == start.after_all::<C>(insertions(pairs@)),
                Err(_) => !all_have_slots(pairs@),
            },
    {
        let mut adapter: Self = Default::default();
        let ghost start = adapter@;
        assert(default_entries::<K, C>(start.entries)) by {
            assert(call_ensures(C::default, (), adapter.backing()));
        }
        let ghost all = pairs@;
        for pair in it: pairs
            invariant
                it.seq() == all,
                forall|j: int| 0 <= j < it.index() ==> slot((#[trigger] all[j]).0) is Some,
                adapter@ == start.after_all::<C>(insertions(all.take(it.index()))),
        {
            let (key, value) = pair;
            if adapter.insert(key, value).is_err() {
                return Err(KeyRangeError);
            }
            proof {
                assert(insertions(all.take(it.index() + 1)).drop_last() =~= insertions(
                    all.take(it.index()),
                ));
            }
        }
        proof {
            assert(all.take(all.len() as int) =~= all);
        }
        Ok(adapter)
    }
}

impl<K: Key, C: Collection<K> + Default> Default for BitSetCollection<K, C> {
    /// An adapter over a default container, with an empty index.
    fn default() -> (r: Self)
        ensures
            r.index() == Set::<K>::empty(),
            call_ensures(C::default, (), r.backing()),
    {
        BitSetCollection { bitset: PresenceIndex::new(), collection: C::default() }
    }
}

} // verus!
