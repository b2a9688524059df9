//! Trusted boundary around `fixedbitset::FixedBitSet`, the packed bit buffer
//! that backs the grid. Each wrapper states over `fb_bits` exactly what the
//! crate's source shows of the one call its body makes.

use vstd::prelude::*;
use fixedbitset::FixedBitSet;

verus! {

#[verifier::external_type_specification]
#[verifier::external_body]
pub struct ExFixedBitSet(FixedBitSet);

/// The boolean contents of a `FixedBitSet`, bit by bit, in index order.
pub uninterp spec fn fb_bits(fb: FixedBitSet) -> Seq<bool>;

/// Relies on FixedBitSet::with_capacity: a set of `bits` bits, all initially
/// clear.
#[verifier::external_body]
pub(crate) fn fb_with_capacity(bits: usize) -> (r: FixedBitSet)
    ensures
        fb_bits(r).len() == bits,
        forall|i: int| 0 <= i < bits ==> !fb_bits(r)[i],
{
    FixedBitSet::with_capacity(bits)
}

/// Relies on FixedBitSet::set: writes one bit in place; panics only when
/// `bit` is at or past the length, which the precondition rules out.
#[verifier::external_body]
pub(crate) fn fb_set(fb: &mut FixedBitSet, bit: usize, enabled: bool)
    requires
        bit < fb_bits(*old(fb)).len(),
    ensures
        fb_bits(*final(fb)) == fb_bits(*old(fb)).update(bit as int, enabled),
{
    fb.set(bit, enabled)
}

/// Relies on FixedBitSet::contains: whether the bit at an in-range index is
/// enabled.
#[verifier::external_body]
pub(crate) fn fb_contains(fb: &FixedBitSet, bit: usize) -> (r: bool)
    requires
        bit < fb_bits(*fb).len(),
    ensures
        r == fb_bits(*fb)[bit as int],
{
    fb.contains(bit)
}

/// Relies on FixedBitSet::clone: copies the blocks and the length, so the
/// clone holds the same bits.
#[verifier::external_body]
pub(crate) fn fb_clone(fb: &FixedBitSet) -> (r: FixedBitSet)
    ensures
        fb_bits(r) == fb_bits(*fb),
{
    fb.clone()
}

} // verus!
