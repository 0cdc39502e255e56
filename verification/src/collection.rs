//! The capability contract that a backing container meets.

use vstd::prelude::*;

verus! {

/// A key-value container.
///
/// A container is modelled by the map of its [`entries`](Collection::entries).
/// Not every container can store under every key, or give up every entry.
/// `admits` and `releases` say, from the entries alone, which insertions and
/// removals the container carries out. One that it does not carry out leaves
/// the container as it was and returns `None`: the value handed to `insert`
/// is dropped, the value asked of `remove` stays where it is.
///
/// A map admits and releases every key. A sequence holds the positions
/// `0..len` and nothing else, so it gives up its last entry only: taking
/// another one out would move every later value to a new key. `remove` of a
/// held position that is not the last returns `None` and leaves the value in
/// place. A vector or a queue admits the positions it holds and `len`; an
/// exclusive slice admits the positions it holds and releases none; a shared
/// slice admits and releases none.
pub trait Collection<K> {
    /// The type of the stored values.
    type Item;

    /// The entries of the container.
    spec fn entries(&self) -> Map<K, Self::Item>;

    /// Whether a container with these entries stores a value under `key`.
    spec fn admits(entries: Map<K, Self::Item>, key: K) -> bool;

    /// Whether a container with these entries gives up what it holds under
    /// `key`.
    spec fn releases(entries: Map<K, Self::Item>, key: K) -> bool;

    /// The value stored under `key`, if there is one.
    fn get(&self, key: &K) -> (r: Option<&Self::Item>)
        ensures
            r == if self.entries().contains_key(*key) {
                Some(&self.entries()[*key])
            } else {
                None
            },
    ;

    /// The value stored under `key`, for a caller who knows that there is one.
    fn get_unchecked(&self, key: &K) -> (r: &Self::Item)
        requires
            self.entries().contains_key(*key),
        ensures
            *r == self.entries()[*key],
    ;

    /// Stores `value` under `key` and returns the value it replaces, where
    /// the container admits the key. Elsewhere nothing changes and the result
    /// is `None`.
    fn insert(&mut self, key: K, value: Self::Item) -> (r: Option<Self::Item>)
        ensures
            final(self).entries() == if Self::admits(old(self).entries(), key) {
                old(self).entries().insert(key, value)
            } else {
                old(self).entries()
            },
            r == if Self::admits(old(self).entries(), key) && old(self).entries().contains_key(
                key,
            ) {
                Some(old(self).entries()[key])
            } else {
                None
            },
    ;

    /// Deletes the entry of `key` and returns its value, where the container
    /// releases the key. Elsewhere nothing changes and the result is `None`.
    fn remove(&mut self, key: &K) -> (r: Option<Self::Item>)
        ensures
            final(self).entries() == if Self::releases(old(self).entries(), *key) {
                old(self).entries().remove(*key)
            } else {
                old(self).entries()
            },
            r == if Self::releases(old(self).entries(), *key) && old(self).entries().contains_key(
                *key,
            ) {
                Some(old(self).entries()[*key])
            } else {
                None
            },
    ;

    /// The keys of all entries, each once, in the container's own order.
    fn keys(&self) -> (r: Vec<K>)
        ensures
            r@.no_duplicates(),
            forall|k: K| r@.contains(k) <==> self.entries().contains_key(k),
    ;

    /// Whether there is a value under `key`.
    fn contains_key(&self, key: &K) -> (r: bool)
        ensures
            r == self.entries().contains_key(*key),
    ;
}

/// The entries of a container of type `C` after `insert(key, value)`.
pub open spec fn entries_after_insert<K, C: Collection<K> + ?Sized>(
    entries: Map<K, C::Item>,
    key: K,
    value: C::Item,
) -> Map<K, C::Item> {
    if C::admits(entries, key) {
        entries.insert(key, value)
    } else {
        entries
    }
}

/// What `insert(key, _)` returns on a container of type `C`.
pub open spec fn displaced_by_insert<K, C: Collection<K> + ?Sized>(
    entries: Map<K, C::Item>,
    key: K,
) -> Option<C::Item> {
    if C::admits(entries, key) && entries.contains_key(key) {
        Some(entries[key])
    } else {
        None
    }
}

/// The entries of a container of type `C` after `remove(key)`.
pub open spec fn entries_after_remove<K, C: Collection<K> + ?Sized>(
    entries: Map<K, C::Item>,
    key: K,
) -> Map<K, C::Item> {
    if C::releases(entries, key) {
        entries.remove(key)
    } else {
        entries
    }
}

/// What `remove(key)` returns on a container of type `C`.
pub open spec fn taken_by_remove<K, C: Collection<K> + ?Sized>(
    entries: Map<K, C::Item>,
    key: K,
) -> Option<C::Item> {
    if C::releases(entries, key) && entries.contains_key(key) {
        Some(entries[key])
    } else {
        None
    }
}

} // verus!
