//! The bit vector of `bit_vec`, as far as certificates use it.

use bit_vec::BitVec;
use vstd::prelude::*;

verus! {

/// `bit_vec::BitVec`, a growable vector of bits packed into blocks.
#[verifier::external_type_specification]
#[verifier::external_body]
#[verifier::reject_recursive_types(B)]
pub struct ExBitVec<B>(BitVec<B>);

/// The bits that a bit vector holds, first to last: as many as the vector
/// says it has. A bit for which the vector has no block counts as unset.
pub uninterp spec fn bits(bitmap: BitVec) -> Seq<bool>;

/// Whether the bit vector has a block for each of its bits. A vector that
/// the crate made itself has; one that was read from bytes need not.
pub uninterp spec fn whole(bitmap: BitVec) -> bool;

/// Calls `BitVec::from_elem`, which makes a vector of `nbits` bits, each of
/// them `bit`, with the blocks that hold them.
#[verifier::external_body]
pub(crate) fn bitmap_from_elem(nbits: usize, bit: bool) -> (bitmap: BitVec)
    ensures
        bits(bitmap).len() == nbits,
        forall|i: int| 0 <= i < nbits ==> bits(bitmap)[i] == bit,
        whole(bitmap),
{
    BitVec::from_elem(nbits, bit)
}

/// Calls `BitVec::len`, the number of bits in the vector.
#[verifier::external_body]
pub(crate) fn bitmap_len(bitmap: &BitVec) -> (len: usize)
    ensures
        len == bits(*bitmap).len(),
{
    bitmap.len()
}

/// Calls `BitVec::get`, which gives the bit at `index`, or nothing where
/// the vector is no longer than `index` or has no block for that bit. So
/// it gives a set bit exactly where the bit counts as set.
#[verifier::external_body]
pub(crate) fn bitmap_get(bitmap: &BitVec, index: usize) -> (bit: Option<bool>)
    ensures
        bit == Some(true) <==> (index < bits(*bitmap).len() && bits(*bitmap)[index as int]),
        index >= bits(*bitmap).len() ==> bit is None,
        whole(*bitmap) && index < bits(*bitmap).len() ==> bit is Some,
{
    bitmap.get(index)
}

/// Calls `BitVec::set`, which sets the bit at `index` to `bit` and leaves
/// the others, and the blocks, as they are. The method panics where `index`
/// is out of bounds, and where the vector has no block for the bit.
#[verifier::external_body]
pub(crate) fn bitmap_set(bitmap: &mut BitVec, index: usize, bit: bool)
    requires
        index < bits(*old(bitmap)).len(),
        whole(*old(bitmap)),
    ensures
        bits(*final(bitmap)) == bits(*old(bitmap)).update(index as int, bit),
        whole(*final(bitmap)),
{
    bitmap.set(index, bit)
}

} // verus!
