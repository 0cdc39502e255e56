//! The hierarchical bit set under the presence index.
//!
//! The bit set is `hibitset::BitSet`. Verus does not look inside it, so
//! its contents are named by [`members`], and each of its methods that the
//! library calls is wrapped by a function whose contract is stated over that
//! name and taken on trust.

use hibitset::BitSet;
use hibitset::BitSetLike;
use vstd::prelude::*;

verus! {

/// Declares `hibitset::BitSet` as an opaque type.
#[verifier::external_type_specification]
#[verifier::external_body]
pub struct ExBitSet(BitSet);

/// The indices that a bit set holds.
pub uninterp spec fn members(bits: BitSet) -> Set<u32>;

/// The number of indices that a bit set can address: four layers of machine
/// words, each word summarising one word's worth of the layer below.
pub open spec fn capacity() -> int {
    if usize::BITS == 64 {
        0x100_0000
    } else {
        0x10_0000
    }
}

/// Each element is smaller than the one after it.
pub open spec fn strictly_ascending(s: Seq<u32>) -> bool {
    forall|i: int, j: int| 0 <= i < j < s.len() ==> s[i] < s[j]
}

/// The number of indices that a bit set can address on this machine.
pub fn index_capacity() -> (limit: u32)
    ensures
        limit == capacity(),
{
    if usize::BITS == 64 {
        0x100_0000
    } else {
        0x10_0000
    }
}

/// `BitSet::new`: the set it returns holds no index.
#[verifier::external_body]
pub(crate) fn bitset_new() -> (bits: BitSet)
    ensures
        members(bits) == Set::<u32>::empty(),
{
    BitSet::new()
}

/// `BitSet::clone`: the copy holds the same layers as `bits`, and so the
/// same indices.
#[verifier::external_body]
pub(crate) fn bitset_clone(bits: &BitSet) -> (copy: BitSet)
    ensures
        members(copy) == members(*bits),
{
    bits.clone()
}

/// `BitSet::add`: puts `index` into the set, leaves every other index as it
/// was, and reports whether `index` was already there. The call panics on an
/// index beyond what the four layers address, so such an index is left out.
#[verifier::external_body]
pub(crate) fn bitset_add(bits: &mut BitSet, index: u32) -> (was_present: bool)
    requires
        index < capacity(),
    ensures
        members(*final(bits)) == members(*old(bits)).insert(index),
        was_present == members(*old(bits)).contains(index),
{
    bits.add(index)
}

/// `BitSet::remove`: takes `index` out of the set, leaves every other index
/// as it was, and reports whether `index` was there.
#[verifier::external_body]
pub(crate) fn bitset_remove(bits: &mut BitSet, index: u32) -> (was_present: bool)
    ensures
        members(*final(bits)) == members(*old(bits)).remove(index),
        was_present == members(*old(bits)).contains(index),
{
    bits.remove(index)
}

/// `BitSet::contains`: whether the set holds `index`.
#[verifier::external_body]
pub(crate) fn bitset_contains(bits: &BitSet, index: u32) -> (present: bool)
    ensures
        present == members(*bits).contains(index),
{
    bits.contains(index)
}

/// `BitSetLike::iter` on a borrow of the set, drained into a vector: the
/// iterator walks the layers from the lowest set bit upwards, so it yields
/// every index of the set once, smallest first.
#[verifier::external_body]
pub(crate) fn bitset_indices(bits: &BitSet) -> (indices: Vec<u32>)
    ensures
        strictly_ascending(indices@),
        forall|i: u32| indices@.contains(i) <==> members(*bits).contains(i),
{
    bits.iter().collect()
}

} // verus!
