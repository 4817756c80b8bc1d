//! The calls this crate makes into `fixedbitset`, with what they promise.
use vstd::prelude::*;
use fixedbitset::FixedBitSet;

verus! {

#[verifier::external_type_specification]
#[verifier::external_body]
pub struct ExFixedBitSet(FixedBitSet);

/// Every bit index that is set in the storage of `s`.
pub uninterp spec fn bitset_ones(s: FixedBitSet) -> Set<int>;

/// The length of `s` in bits, as it was made.
pub uninterp spec fn bitset_len(s: FixedBitSet) -> nat;

/// `FixedBitSet::with_capacity`: a set of `bits` bits, all clear.
#[verifier::external_body]
pub(crate) fn bitset_with_capacity(bits: usize) -> (r: FixedBitSet)
    ensures
        bitset_ones(r) == Set::<int>::empty(),
        bitset_len(r) == bits,
{
    FixedBitSet::with_capacity(bits)
}

/// `FixedBitSet::contains`: whether `bit` is below the length and set.
#[verifier::external_body]
pub(crate) fn bitset_contains(s: &FixedBitSet, bit: usize) -> (r: bool)
    ensures
        r == (bit < bitset_len(*s) && bitset_ones(*s).contains(bit as int)),
{
    s.contains(bit)
}

/// `FixedBitSet::insert`: sets `bit`, which must be below the length
/// (the call panics otherwise).
#[verifier::external_body]
pub(crate) fn bitset_insert(s: &mut FixedBitSet, bit: usize)
    requires
        bit < bitset_len(*old(s)),
    ensures
        bitset_ones(*final(s)) == bitset_ones(*old(s)).insert(bit as int),
        bitset_len(*final(s)) == bitset_len(*old(s)),
{
    s.insert(bit)
}

/// `FixedBitSet::set`: sets or clears `bit`, which must be below the
/// length (the call panics otherwise).
#[verifier::external_body]
pub(crate) fn bitset_set(s: &mut FixedBitSet, bit: usize, enabled: bool)
    requires
        bit < bitset_len(*old(s)),
    ensures
        bitset_ones(*final(s)) == if enabled {
            bitset_ones(*old(s)).insert(bit as int)
        } else {
            bitset_ones(*old(s)).remove(bit as int)
        },
        bitset_len(*final(s)) == bitset_len(*old(s)),
{
    s.set(bit, enabled)
}

/// `FixedBitSet::count_ones(..)`: how many bits below the length are set.
#[verifier::external_body]
pub(crate) fn bitset_count_ones(s: &FixedBitSet) -> (r: usize)
    ensures
        r == bitset_ones(*s).filter(|j: int| 0 <= j < bitset_len(*s)).len(),
{
    s.count_ones(..)
}

/// `FixedBitSet::ones`, collected: every set bit, in increasing order.
#[verifier::external_body]
pub(crate) fn bitset_ones_list(s: &FixedBitSet) -> (r: Vec<usize>)
    ensures
        forall|a: int, b: int| 0 <= a < b < r@.len() ==> r@[a] < r@[b],
        forall|k: int| 0 <= k < r@.len() ==> bitset_ones(*s).contains(#[trigger] r@[k] as int),
        forall|j: int| #[trigger] bitset_ones(*s).contains(j) ==> r@.contains(j as usize),
{
    s.ones().collect()
}

} // verus!
