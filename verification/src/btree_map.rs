//! Ordered maps as containers.

use crate::collection::Collection;
use crate::key::Key;
use std::collections::BTreeMap;
use vstd::laws_cmp::obeys_cmp;
use vstd::prelude::*;
use vstd::std_specs::btree::spec_keys_iter;
use vstd::std_specs::iter::IteratorSpec;

verus! {

/// A key whose order obeys the laws that vstd asks of the keys of an ordered
/// map.
pub trait OrdKey: Key + Ord {
    /// The order of the key type is a total order that agrees with equality.
    proof fn lemma_obeys_order()
        ensures
            obeys_cmp::<Self>(),
    ;
}

impl OrdKey for u8 {
    proof fn lemma_obeys_order() {
        broadcast use vstd::laws_cmp::group_laws_cmp;

    }
}

impl OrdKey for u16 {
    proof fn lemma_obeys_order() {
        broadcast use vstd::laws_cmp::group_laws_cmp;

    }
}

impl OrdKey for u32 {
    proof fn lemma_obeys_order() {
        broadcast use vstd::laws_cmp::group_laws_cmp;

    }
}

impl OrdKey for u64 {
    proof fn lemma_obeys_order() {
        broadcast use vstd::laws_cmp::group_laws_cmp;

    }
}

impl OrdKey for usize {
    proof fn lemma_obeys_order() {
        broadcast use vstd::laws_cmp::group_laws_cmp;

    }
}

impl OrdKey for i32 {
    proof fn lemma_obeys_order() {
        broadcast use vstd::laws_cmp::group_laws_cmp;

    }
}

impl OrdKey for i64 {
    proof fn lemma_obeys_order() {
        broadcast use vstd::laws_cmp::group_laws_cmp;

    }
}

impl OrdKey for i8 {
    proof fn lemma_obeys_order() {
        broadcast use vstd::laws_cmp::group_laws_cmp;

    }
}

impl OrdKey for i16 {
    proof fn lemma_obeys_order() {
        broadcast use vstd::laws_cmp::group_laws_cmp;

    }
}

impl OrdKey for isize {
    proof fn lemma_obeys_order() {
        broadcast use vstd::laws_cmp::group_laws_cmp;

    }
}

impl OrdKey for u128 {
    proof fn lemma_obeys_order() {
        broadcast use vstd::laws_cmp::group_laws_cmp;

    }
}

impl OrdKey for i128 {
    proof fn lemma_obeys_order() {
        broadcast use vstd::laws_cmp::group_laws_cmp;

    }
}

/// An ordered map stores under every key and gives up every entry.
impl<K: OrdKey, V> Collection<K> for BTreeMap<K, V> {
    type Item = V;

    open spec fn entries(&self) -> Map<K, V> {
        self@
    }

    open spec fn admits(entries: Map<K, V>, key: K) -> bool {
        true
    }

    open spec fn releases(entries: Map<K, V>, key: K) -> bool {
        true
    }

    fn get(&self, key: &K) -> (r: Option<&V>) {
        proof {
            K::lemma_obeys_order();
        }
        BTreeMap::get(self, key)
    }

    fn get_unchecked(&self, key: &K) -> (r: &V) {
        proof {
            K::lemma_obeys_order();
        }
        BTreeMap::get(self, key).unwrap()
    }

    fn insert(&mut self, key: K, value: V) -> (r: Option<V>) {
        proof {
            K::lemma_obeys_order();
        }
        BTreeMap::insert(self, key, value)
    }

    fn remove(&mut self, key: &K) -> (r: Option<V>) {
        proof {
            K::lemma_obeys_order();
        }
        BTreeMap::remove(self, key)
    }

    fn keys(&self) -> (r: Vec<K>) {
        proof {
            K::lemma_obeys_order();
        }
        let ghost all = spec_keys_iter(self).remaining();
        let mut keys: Vec<K> = Vec::new();
        for key in it: BTreeMap::keys(self)
            invariant
                it.seq() == all,
                keys@ =~= all.take(it.index()).unref(),
        {
            keys.push(*key);
        }
        proof {
            assert(all.take(all.len() as int) =~= all);
            assert forall|i: int, j: int| 0 <= i < j < keys@.len() implies keys@[i] != keys@[j] by {
                assert(all[i] != all[j]);
            }
            assert forall|k: K| keys@.contains(k) <==> self@.contains_key(k) by {
                assert(all.unref().to_set().contains(k) <==> self@.dom().contains(k));
            }
        }
        keys
    }

    fn contains_key(&self, key: &K) -> (r: bool) {
        proof {
            K::lemma_obeys_order();
        }
        BTreeMap::contains_key(self, key)
    }
}

} // verus!
