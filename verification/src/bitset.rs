//! Trusted boundary around `fixedbitset::FixedBitSet`, the bit store behind
//! the framebuffer.  Its contents are modelled as a sequence of booleans.

use vstd::prelude::*;
use fixedbitset::FixedBitSet;

verus! {

#[verifier::external_type_specification]
#[verifier::external_body]
pub struct ExFixedBitSet(FixedBitSet);

/// The bits a `FixedBitSet` holds, in index order; its length is the
/// capacity the set was created with.
pub uninterp spec fn bitset_bits(s: FixedBitSet) -> Seq<bool>;

/// Relies on `FixedBitSet::with_capacity`: a set with `bits` bits, all
/// initially clear.
#[verifier::external_body]
pub fn bitset_new(bits: usize) -> (r: FixedBitSet)
    ensures
        bitset_bits(r).len() == bits,
        forall|i: int| 0 <= i < bits ==> !bitset_bits(r)[i],
{
    FixedBitSet::with_capacity(bits)
}

/// Relies on `FixedBitSet::contains`: whether the bit is set; bits outside
/// the capacity always read as clear.
#[verifier::external_body]
pub fn bitset_contains(s: &FixedBitSet, bit: usize) -> (r: bool)
    ensures
        r == (bit < bitset_bits(*s).len() && bitset_bits(*s)[bit as int]),
{
    s.contains(bit)
}

/// Relies on `FixedBitSet::toggle`: inverts one bit.  It panics out of
/// bounds, so callers must stay inside the capacity.
#[verifier::external_body]
pub fn bitset_toggle(s: &mut FixedBitSet, bit: usize)
    requires
        bit < bitset_bits(*old(s)).len(),
    ensures
        bitset_bits(*final(s)) == bitset_bits(*old(s)).update(
            bit as int,
            !bitset_bits(*old(s))[bit as int],
        ),
{
    s.toggle(bit)
}

/// Relies on `FixedBitSet::clear`: clears every bit and keeps the capacity.
#[verifier::external_body]
pub fn bitset_clear(s: &mut FixedBitSet)
    ensures
        bitset_bits(*final(s)).len() == bitset_bits(*old(s)).len(),
        forall|i: int| 0 <= i < bitset_bits(*old(s)).len() ==> !bitset_bits(*final(s))[i],
{
    s.clear()
}

} // verus!
