//! The presence index: the set of keys that currently have a value.

use crate::bits::bitset_add;
use crate::bits::bitset_clone;
use crate::bits::bitset_contains;
use crate::bits::bitset_indices;
use crate::bits::bitset_new;
use crate::bits::bitset_remove;
use crate::bits::capacity;
use crate::bits::index_capacity;
use crate::bits::members;
use crate::bits::strictly_ascending;
use crate::key::Key;
use crate::key::KeyRangeError;
use hibitset::BitSet;
use std::marker::PhantomData;
use vstd::prelude::*;

verus! {

/// The bit under which the presence index files `key`: the integer form of
/// the key, where it has one that the bit set can address.
pub open spec fn slot<K: Key>(key: K) -> Option<u32> {
    match key.index_of() {
        Some(i) => if i < capacity() {
            Some(i)
        } else {
            None
        },
        None => None,
    }
}

/// Two keys with the same slot are the same key.
pub proof fn lemma_slot_injective<K: Key>(a: K, b: K)
    requires
        slot(a) is Some,
        slot(a) == slot(b),
    ensures
        a == b,
{
    a.lemma_round_trip();
    b.lemma_round_trip();
}

/// The slots of the keys are strictly ascending.
pub open spec fn ascending_slots<K: Key>(keys: Seq<K>) -> bool {
    &&& forall|i: int| 0 <= i < keys.len() ==> (#[trigger] slot(keys[i])) is Some
    &&& forall|i: int, j: int|
        0 <= i < j < keys.len() ==> slot(keys[i]).unwrap() < slot(keys[j]).unwrap()
}

/// A set of keys, kept as a bit set over their slots.
#[derive(Debug, PartialEq, Eq)]
pub struct PresenceIndex<K: Key> {
    bits: BitSet,
    _key: PhantomData<K>,
}

impl<K: Key> View for PresenceIndex<K> {
    type V = Set<K>;

    closed spec fn view(&self) -> Set<K> {
        Set::new(|k: K| slot(k) matches Some(i) && members(self.bits).contains(i))
    }
}

impl<K: Key> Clone for PresenceIndex<K> {
    /// A second index that holds the same keys.
    fn clone(&self) -> (copy: Self)
        ensures
            copy@ == self@,
    {
        proof {
            use_type_invariant(self);
        }
        let copy = PresenceIndex { bits: bitset_clone(&self.bits), _key: PhantomData };
        assert(copy@ =~= self@);
        copy
    }
}

impl<K: Key> PresenceIndex<K> {
    /// Every bit that is set is the slot of a key.
    #[verifier::type_invariant]
    spec fn every_bit_has_a_key(&self) -> bool {
        forall|i: u32| #[trigger]
            members(self.bits).contains(i) ==> exists|k: K| slot(k) == Some(i)
    }

    /// Every key of the index has a slot.
    pub proof fn lemma_keys_have_slots(&self)
        ensures
            forall|k: K| self@.contains(k) ==> slot(k) is Some,
    {
    }

    /// An index that holds no key.
    pub fn new() -> (index: Self)
        ensures
            index@ == Set::<K>::empty(),
    {
        let index = PresenceIndex { bits: bitset_new(), _key: PhantomData };
        assert(index@ =~= Set::<K>::empty());
        index
    }

    /// The slot of `key`, or the error where it has none.
    pub fn slot_of(key: K) -> (r: Result<u32, KeyRangeError>)
        ensures
            r == match slot(key) {
                Some(i) => Ok::<u32, KeyRangeError>(i),
                None => Err(KeyRangeError),
            },
    {
        match key.to_index() {
            Ok(i) => if i < index_capacity() {
                Ok(i)
            } else {
                Err(KeyRangeError)
            },
            Err(e) => Err(e),
        }
    }

    /// Puts `key` into the index and reports whether it was there already.
    pub fn insert(&mut self, key: K) -> (r: Result<bool, KeyRangeError>)
        ensures
            slot(key) is Some ==> r == Ok::<bool, KeyRangeError>(old(self)@.contains(key))
                && final(self)@ == old(self)@.insert(key),
            slot(key) is None ==> r == Err::<bool, KeyRangeError>(KeyRangeError) && final(self)@
                == old(self)@,
    {
        proof {
            use_type_invariant(&*self);
        }
        let i: u32 = match Self::slot_of(key) {
            Ok(i) => i,
            Err(e) => {
                return Err(e);
            },
        };
        // The bit set changes outside `self`, which holds an empty one
        // meanwhile: the invariant is then true of `self` at every step.
        let mut bits = bitset_new();
        std::mem::swap(&mut bits, &mut self.bits);
        let was_present = bitset_add(&mut bits, i);
        self.bits = bits;
        proof {
            assert forall|k: K| #[trigger]
                self@.contains(k) <==> old(self)@.insert(key).contains(k) by {
                if slot(k) == Some(i) {
                    lemma_slot_injective(key, k);
                }
            }
            assert(self@ =~= old(self)@.insert(key));
        }
        Ok(was_present)
    }

    /// Takes `key` out of the index and reports whether it was there. A key
    /// that has an integer form and no slot is never there.
    pub fn remove(&mut self, key: K) -> (r: Result<bool, KeyRangeError>)
        ensures
            key.index_of() is Some ==> r == Ok::<bool, KeyRangeError>(old(self)@.contains(key))
                && final(self)@ == old(self)@.remove(key),
            key.index_of() is None ==> r == Err::<bool, KeyRangeError>(KeyRangeError)
                && final(self)@ == old(self)@,
            slot(key) is None ==> r != Ok::<bool, KeyRangeError>(true),
    {
        proof {
            use_type_invariant(&*self);
        }
        let i: u32 = match key.to_index() {
            Ok(i) => i,
            Err(e) => {
                return Err(e);
            },
        };
        // The bit set changes outside `self`, which holds an empty one
        // meanwhile: the invariant is then true of `self` at every step.
        let mut bits = bitset_new();
        std::mem::swap(&mut bits, &mut self.bits);
        let was_present = bitset_remove(&mut bits, i);
        self.bits = bits;
        proof {
            assert forall|k: K| #[trigger]
                self@.contains(k) <==> old(self)@.remove(key).contains(k) by {
                if slot(k) == Some(i) {
                    lemma_slot_injective(k, key);
                }
            }
            assert(self@ =~= old(self)@.remove(key));
        }
        Ok(was_present)
    }

    /// Whether the index holds `key`. A key that has an integer form and no
    /// slot is never held.
    pub fn contains(&self, key: K) -> (r: Result<bool, KeyRangeError>)
        ensures
            r == match key.index_of() {
                Some(_) => Ok::<bool, KeyRangeError>(self@.contains(key)),
                None => Err(KeyRangeError),
            },
            slot(key) is None ==> r != Ok::<bool, KeyRangeError>(true),
    {
        proof {
            use_type_invariant(self);
        }
        match key.to_index() {
            Ok(i) => Ok(bitset_contains(&self.bits, i)),
            Err(e) => Err(e),
        }
    }

    /// The keys of the index, each once, by ascending slot.
    pub fn keys(&self) -> (keys: Vec<K>)
        ensures
            ascending_slots(keys@),
            forall|k: K| keys@.contains(k) <==> self@.contains(k),
    {
        proof {
            use_type_invariant(self);
        }
        let indices = bitset_indices(&self.bits);
        let mut keys: Vec<K> = Vec::new();
        let mut n: usize = 0;
        while n < indices.len()
            invariant
                n <= indices.len(),
                keys@.len() == n,
                self.every_bit_has_a_key(),
                strictly_ascending(indices@),
                forall|i: u32| indices@.contains(i) <==> members(self.bits).contains(i),
                forall|j: int| 0 <= j < n ==> slot(#[trigger] keys@[j]) == Some(indices@[j]),
            decreases indices.len() - n,
        {
            let i: u32 = indices[n];
            assert(indices@.contains(i));
            proof {
                let k = choose|k: K| slot(k) == Some(i);
                k.lemma_round_trip();
            }
            if let Ok(key) = K::from_index(i) {
                keys.push(key);
            }
            n = n + 1;
        }
        proof {
            assert forall|k: K| keys@.contains(k) <==> self@.contains(k) by {
                if keys@.contains(k) {
                    let j = choose|j: int| 0 <= j < keys@.len() && keys@[j] == k;
                    assert(indices@.contains(indices@[j]));
                }
                if self@.contains(k) {
                    let i = slot(k).unwrap();
                    assert(indices@.contains(i));
                    let j = choose|j: int| 0 <= j < indices@.len() && indices@[j] == i;
                    lemma_slot_injective(k, keys@[j]);
                }
            }
        }
        keys
    }
}

} // verus!
