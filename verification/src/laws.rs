//! What holds of every adapter, proved over its states.

use crate::adapter::Operation;
use crate::adapter::State;
use crate::collection::displaced_by_insert;
use crate::collection::taken_by_remove;
use crate::collection::Collection;
use crate::key::Key;
use crate::presence::slot;
use vstd::prelude::*;

verus! {

/// An insertion that the container carries out keeps the index consistent
/// with the container.
pub proof fn lemma_insert_keeps_consistent<K: Key, C: Collection<K>>(
    state: State<K, C::Item>,
    key: K,
    value: C::Item,
)
    requires
        state.consistent(),
        C::admits(state.entries, key),
    ensures
        state.after_insert::<C>(key, value).consistent(),
{
    assert(state.present.insert(key) =~= state.entries.insert(key, value).dom());
}

/// A removal that the container carries out keeps the index consistent with
/// the container.
pub proof fn lemma_remove_keeps_consistent<K: Key, C: Collection<K>>(
    state: State<K, C::Item>,
    key: K,
)
    requires
        state.consistent(),
        C::releases(state.entries, key),
    ensures
        state.after_remove::<C>(key).consistent(),
{
    assert(state.present.remove(key) =~= state.entries.remove(key).dom());
}

/// Presence consistency: from a consistent state, after any sequence of
/// insertions and removals that the container carries out, the index reports
/// a key exactly if the container holds a value under it.
pub proof fn lemma_presence_consistency<K: Key, C: Collection<K>>(
    start: State<K, C::Item>,
    operations: Seq<Operation<K, C::Item>>,
)
    requires
        start.consistent(),
        start.carries_all_out::<C>(operations),
    ensures
        start.after_all::<C>(operations).consistent(),
        forall|k: K|
            start.after_all::<C>(operations).present.contains(k) <==> start.after_all::<C>(
                operations,
            ).entries.contains_key(k),
    decreases operations.len(),
{
    if operations.len() > 0 {
        lemma_presence_consistency::<K, C>(start, operations.drop_last());
        let before = start.after_all::<C>(operations.drop_last());
        match operations.last() {
            Operation::Insert(key, value) => {
                lemma_insert_keeps_consistent::<K, C>(before, key, value);
            },
            Operation::Remove(key) => {
                lemma_remove_keeps_consistent::<K, C>(before, key);
            },
        }
    }
}

/// A container that refuses nothing, as a map does, carries every sequence
/// of insertions and removals out.
pub proof fn lemma_nothing_refused<K: Key, C: Collection<K>>(
    start: State<K, C::Item>,
    operations: Seq<Operation<K, C::Item>>,
)
    requires
        forall|entries: Map<K, C::Item>, key: K| #[trigger] C::admits(entries, key),
        forall|entries: Map<K, C::Item>, key: K| #[trigger] C::releases(entries, key),
    ensures
        start.carries_all_out::<C>(operations),
    decreases operations.len(),
{
    if operations.len() > 0 {
        lemma_nothing_refused::<K, C>(start, operations.drop_last());
    }
}

/// Removing a key that is absent changes nothing and returns nothing.
pub proof fn lemma_remove_absent<K: Key, C: Collection<K>>(state: State<K, C::Item>, key: K)
    requires
        !state.present.contains(key),
        !state.entries.contains_key(key),
    ensures
        state.after_remove::<C>(key) == state,
        taken_by_remove::<K, C>(state.entries, key) is None,
{
    assert(state.present.remove(key) =~= state.present);
    assert(state.entries.remove(key) =~= state.entries);
}

/// Inserting twice under one key: the second insertion returns the first
/// value, and the state is the one that the second insertion alone leads to.
pub proof fn lemma_insert_overwrites<K: Key, C: Collection<K>>(
    state: State<K, C::Item>,
    key: K,
    first: C::Item,
    second: C::Item,
)
    requires
        slot(key) is Some,
        C::admits(state.entries, key),
        C::admits(state.entries.insert(key, first), key),
    ensures
        ({
            let between = state.after_insert::<C>(key, first);
            &&& displaced_by_insert::<K, C>(between.entries, key) == Some(first)
            &&& between.after_insert::<C>(key, second) == state.after_insert::<C>(key, second)
            &&& between.after_insert::<C>(key, second).present.contains(key)
            &&& between.after_insert::<C>(key, second).entries[key] == second
        }),
{
    assert(state.present.insert(key).insert(key) =~= state.present.insert(key));
    assert(state.entries.insert(key, first).insert(key, second) =~= state.entries.insert(
        key,
        second,
    ));
}

} // verus!
