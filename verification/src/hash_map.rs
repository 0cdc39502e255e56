//! Hash maps as containers.

use crate::collection::Collection;
use crate::key::Key;
use std::collections::HashMap;
use std::hash::Hash;
use vstd::prelude::*;
use vstd::std_specs::hash::obeys_key_model;
use vstd::std_specs::hash::spec_keys_iter;
use vstd::std_specs::iter::IteratorSpec;

verus! {

/// A key whose equality and hash obey the laws that vstd asks of the keys of
/// a hash map.
pub trait HashKey: Key + Eq + Hash {
    /// Equal keys are the same key and hash alike.
    proof fn lemma_obeys_hash()
        ensures
            obeys_key_model::<Self>(),
    ;
}

impl HashKey for u8 {
    proof fn lemma_obeys_hash() {
        broadcast use vstd::std_specs::hash::group_hash_axioms;

    }
}

impl HashKey for u16 {
    proof fn lemma_obeys_hash() {
        broadcast use vstd::std_specs::hash::group_hash_axioms;

    }
}

impl HashKey for u32 {
    proof fn lemma_obeys_hash() {
        broadcast use vstd::std_specs::hash::group_hash_axioms;

    }
}

impl HashKey for u64 {
    proof fn lemma_obeys_hash() {
        broadcast use vstd::std_specs::hash::group_hash_axioms;

    }
}

impl HashKey for usize {
    proof fn lemma_obeys_hash() {
        broadcast use vstd::std_specs::hash::group_hash_axioms;

    }
}

impl HashKey for i32 {
    proof fn lemma_obeys_hash() {
        broadcast use vstd::std_specs::hash::group_hash_axioms;

    }
}

impl HashKey for i64 {
    proof fn lemma_obeys_hash() {
        broadcast use vstd::std_specs::hash::group_hash_axioms;

    }
}

impl HashKey for i8 {
    proof fn lemma_obeys_hash() {
        broadcast use vstd::std_specs::hash::group_hash_axioms;

    }
}

impl HashKey for i16 {
    proof fn lemma_obeys_hash() {
        broadcast use vstd::std_specs::hash::group_hash_axioms;

    }
}

impl HashKey for isize {
    proof fn lemma_obeys_hash() {
        broadcast use vstd::std_specs::hash::group_hash_axioms;

    }
}

impl HashKey for u128 {
    proof fn lemma_obeys_hash() {
        broadcast use vstd::std_specs::hash::group_hash_axioms;

    }
}

impl HashKey for i128 {
    proof fn lemma_obeys_hash() {
        broadcast use vstd::std_specs::hash::group_hash_axioms;

    }
}

/// A hash map stores under every key and gives up every entry.
impl<K: HashKey, V> Collection<K> for HashMap<K, V> {
    type Item = V;

    open spec fn entries(&self) -> Map<K, V> {
        self@
    }

    open spec fn admits(entries: Map<K, V>, key: K) -> bool {
        true
    }

    open spec fn releases(entries: Map<K, V>, key: K) -> bool {
        true
    }

    fn get(&self, key: &K) -> (r: Option<&V>) {
        proof {
            K::lemma_obeys_hash();
        }
        HashMap::get(self, key)
    }

    fn get_unchecked(&self, key: &K) -> (r: &V) {
        proof {
            K::lemma_obeys_hash();
        }
        HashMap::get(self, key).unwrap()
    }

    fn insert(&mut self, key: K, value: V) -> (r: Option<V>) {
        proof {
            K::lemma_obeys_hash();
        }
        HashMap::insert(self, key, value)
    }

    fn remove(&mut self, key: &K) -> (r: Option<V>) {
        proof {
            K::lemma_obeys_hash();
        }
        HashMap::remove(self, key)
    }

    fn keys(&self) -> (r: Vec<K>) {
        proof {
            K::lemma_obeys_hash();
        }
        let ghost all = spec_keys_iter(self).remaining();
        let mut keys: Vec<K> = Vec::new();
        for key in it: HashMap::keys(self)
            invariant
                it.seq() == all,
                keys@ =~= all.take(it.index()).unref(),
        {
            keys.push(*key);
        }
        proof {
            assert(all.take(all.len() as int) =~= all);
            assert forall|i: int, j: int| 0 <= i < j < keys@.len() implies keys@[i] != keys@[j] by {
                assert(all[i] != all[j]);
            }
            assert forall|k: K| keys@.contains(k) <==> self@.contains_key(k) by {
                assert(all.unref().to_set().contains(k) <==> self@.dom().contains(k));
            }
        }
        keys
    }

    fn contains_key(&self, key: &K) -> (r: bool) {
        proof {
            K::lemma_obeys_hash();
        }
        HashMap::contains_key(self, key)
    }
}

} // verus!
