//! Index-addressed sequences as containers.

use crate::collection::Collection;
use std::collections::VecDeque;
use vstd::prelude::*;

verus! {

broadcast use vstd::std_specs::vecdeque::group_vec_dequeue_axioms;

/// The entries of a sequence: each position is the key of its element.
pub open spec fn seq_entries<V>(s: Seq<V>) -> Map<usize, V> {
    Map::new(|k: usize| k < s.len(), |k: usize| s[k as int])
}

/// Whether `key` is a position of the sequence with these entries, or the
/// first position after them.
pub open spec fn within_or_next<V>(entries: Map<usize, V>, key: usize) -> bool {
    key == 0 || entries.contains_key((key - 1) as usize)
}

/// Whether no entry follows `key`.
pub open spec fn nothing_follows<V>(entries: Map<usize, V>, key: usize) -> bool {
    key == usize::MAX || !entries.contains_key((key + 1) as usize)
}

/// The positions `0..len` in ascending order.
fn positions(len: usize) -> (keys: Vec<usize>)
    ensures
        keys@.len() == len,
        forall|i: int| 0 <= i < len ==> keys@[i] == i,
        keys@.no_duplicates(),
        forall|k: usize| keys@.contains(k) <==> k < len,
{
    let mut keys: Vec<usize> = Vec::new();
    let mut next: usize = 0;
    while next < len
        invariant
            next <= len,
            keys@.len() == next,
            forall|i: int| 0 <= i < next ==> keys@[i] == i,
        decreases len - next,
    {
        keys.push(next);
        next = next + 1;
    }
    assert forall|k: usize| keys@.contains(k) <==> k < len by {
        if k < len {
            assert(keys@[k as int] == k);
        }
    }
    keys
}

/// A vector holds the keys `0..len`. It stores under a key it holds, and
/// under `len`, by which it grows; it gives up its last entry only.
impl<V> Collection<usize> for Vec<V> {
    type Item = V;

    open spec fn entries(&self) -> Map<usize, V> {
        seq_entries(self@)
    }

    open spec fn admits(entries: Map<usize, V>, key: usize) -> bool {
        within_or_next(entries, key)
    }

    open spec fn releases(entries: Map<usize, V>, key: usize) -> bool {
        nothing_follows(entries, key)
    }

    fn get(&self, key: &usize) -> (r: Option<&V>) {
        if *key < self.len() {
            Some(&self[*key])
        } else {
            None
        }
    }

    fn get_unchecked(&self, key: &usize) -> (r: &V) {
        &self[*key]
    }

    fn insert(&mut self, key: usize, value: V) -> (r: Option<V>) {
        let len: usize = self.len();
        if key < len {
            let mut value = value;
            std::mem::swap(&mut self[key], &mut value);
            assert(self.entries() =~= old(self).entries().insert(key, self@[key as int]));
            Some(value)
        } else if key == len {
            self.push(value);
            assert(self.entries() =~= old(self).entries().insert(key, value));
            None
        } else {
            None
        }
    }

    fn remove(&mut self, key: &usize) -> (r: Option<V>) {
        let len: usize = self.len();
        if len > 0 && *key == len - 1 {
            let last = self.pop();
            assert(self.entries() =~= old(self).entries().remove(*key));
            last
        } else {
            assert(*key >= len ==> old(self).entries().remove(*key) =~= old(self).entries());
            None
        }
    }

    /// The positions in ascending order.
    fn keys(&self) -> (r: Vec<usize>)
        ensures
            forall|i: int| 0 <= i < r@.len() ==> r@[i] == i,
    {
        positions(self.len())
    }

    fn contains_key(&self, key: &usize) -> (r: bool) {
        *key < self.len()
    }
}

/// A double-ended queue holds the keys `0..len`, counted from its front. It
/// stores under a key it holds, and under `len`, by which it grows at the
/// back; it gives up its last entry only.
impl<V> Collection<usize> for VecDeque<V> {
    type Item = V;

    open spec fn entries(&self) -> Map<usize, V> {
        seq_entries(self@)
    }

    open spec fn admits(entries: Map<usize, V>, key: usize) -> bool {
        within_or_next(entries, key)
    }

    open spec fn releases(entries: Map<usize, V>, key: usize) -> bool {
        nothing_follows(entries, key)
    }

    fn get(&self, key: &usize) -> (r: Option<&V>) {
        let position: usize = *key;
        if position < self.len() {
            Some(&self[position])
        } else {
            None
        }
    }

    fn get_unchecked(&self, key: &usize) -> (r: &V) {
        let position: usize = *key;
        &self[position]
    }

    fn insert(&mut self, key: usize, value: V) -> (r: Option<V>) {
        let len: usize = self.len();
        if key < len {
            let previous = VecDeque::remove(self, key);
            VecDeque::insert(self, key, value);
            assert(self.entries() =~= old(self).entries().insert(key, value));
            previous
        } else if key == len {
            self.push_back(value);
            assert(self.entries() =~= old(self).entries().insert(key, value));
            None
        } else {
            None
        }
    }

    fn remove(&mut self, key: &usize) -> (r: Option<V>) {
        let len: usize = self.len();
        if len > 0 && *key == len - 1 {
            let last = self.pop_back();
            assert(self.entries() =~= old(self).entries().remove(*key));
            last
        } else {
            assert(*key >= len ==> old(self).entries().remove(*key) =~= old(self).entries());
            None
        }
    }

    /// The positions in ascending order.
    fn keys(&self) -> (r: Vec<usize>)
        ensures
            forall|i: int| 0 <= i < r@.len() ==> r@[i] == i,
    {
        positions(self.len())
    }

    fn contains_key(&self, key: &usize) -> (r: bool) {
        *key < self.len()
    }
}

/// A shared slice holds the keys `0..len` and cannot be written to: it
/// stores nothing and gives nothing up.
impl<'a, V> Collection<usize> for &'a [V] {
    type Item = V;

    open spec fn entries(&self) -> Map<usize, V> {
        seq_entries(self@)
    }

    open spec fn admits(entries: Map<usize, V>, key: usize) -> bool {
        false
    }

    open spec fn releases(entries: Map<usize, V>, key: usize) -> bool {
        false
    }

    fn get(&self, key: &usize) -> (r: Option<&V>) {
        if *key < self.len() {
            Some(&self[*key])
        } else {
            None
        }
    }

    fn get_unchecked(&self, key: &usize) -> (r: &V) {
        &self[*key]
    }

    fn insert(&mut self, key: usize, value: V) -> (r: Option<V>) {
        None
    }

    fn remove(&mut self, key: &usize) -> (r: Option<V>) {
        None
    }

    /// The positions in ascending order.
    fn keys(&self) -> (r: Vec<usize>)
        ensures
            forall|i: int| 0 <= i < r@.len() ==> r@[i] == i,
    {
        positions(self.len())
    }

    fn contains_key(&self, key: &usize) -> (r: bool) {
        *key < self.len()
    }
}

/// An exclusive slice holds the keys `0..len` and keeps its length: it
/// stores under a key it holds, and gives nothing up.
impl<'a, V> Collection<usize> for &'a mut [V] {
    type Item = V;

    open spec fn entries(&self) -> Map<usize, V> {
        seq_entries(self@)
    }

    open spec fn admits(entries: Map<usize, V>, key: usize) -> bool {
        entries.contains_key(key)
    }

    open spec fn releases(entries: Map<usize, V>, key: usize) -> bool {
        false
    }

    fn get(&self, key: &usize) -> (r: Option<&V>) {
        if *key < self.len() {
            Some(&self[*key])
        } else {
            None
        }
    }

    fn get_unchecked(&self, key: &usize) -> (r: &V) {
        &self[*key]
    }

    fn insert(&mut self, key: usize, value: V) -> (r: Option<V>) {
        if key < self.len() {
            let mut value = value;
            std::mem::swap(&mut self[key], &mut value);
            assert(self.entries() =~= old(self).entries().insert(key, self@[key as int]));
            Some(value)
        } else {
            None
        }
    }

    fn remove(&mut self, key: &usize) -> (r: Option<V>) {
        None
    }

    /// The positions in ascending order.
    fn keys(&self) -> (r: Vec<usize>)
        ensures
            forall|i: int| 0 <= i < r@.len() ==> r@[i] == i,
    {
        positions(self.len())
    }

    fn contains_key(&self, key: &usize) -> (r: bool) {
        *key < self.len()
    }
}

} // verus!
