//! Trusted boundary around `arrayvec::ArrayVec`, the fixed-capacity vector
//! that holds the machine's sixteen-entry stack of return addresses.

use vstd::prelude::*;
use arrayvec::ArrayVec;

verus! {

#[verifier::external_type_specification]
#[verifier::external_body]
#[verifier::reject_recursive_types(T)]
pub struct ExArrayVec<T, const CAP: usize>(ArrayVec<T, CAP>);

/// The return addresses the vector holds, oldest first.
pub uninterp spec fn stack_entries(s: ArrayVec<u16, 16>) -> Seq<u16>;

/// Relies on `ArrayVec::new`: an empty vector.
#[verifier::external_body]
pub fn stack_new() -> (r: ArrayVec<u16, 16>)
    ensures
        stack_entries(r) == Seq::<u16>::empty(),
{
    ArrayVec::new()
}

/// Relies on `ArrayVec::try_push`: appends the element while the vector is
/// below its capacity of sixteen, and otherwise errs leaving it unchanged.
#[verifier::external_body]
pub fn stack_push(s: &mut ArrayVec<u16, 16>, value: u16) -> (ok: bool)
    ensures
        stack_entries(*old(s)).len() < 16 ==> ok && stack_entries(*final(s)) == stack_entries(
            *old(s),
        ).push(value),
        stack_entries(*old(s)).len() >= 16 ==> !ok && stack_entries(*final(s)) == stack_entries(
            *old(s),
        ),
{
    s.try_push(value).is_ok()
}

/// Relies on `ArrayVec::pop`: removes and returns the last element, or
/// returns nothing if the vector is empty.
#[verifier::external_body]
pub fn stack_pop(s: &mut ArrayVec<u16, 16>) -> (r: Option<u16>)
    ensures
        stack_entries(*old(s)).len() == 0 ==> r is None && stack_entries(*final(s))
            == stack_entries(*old(s)),
        stack_entries(*old(s)).len() > 0 ==> r == Some(
            stack_entries(*old(s)).last(),
        ) && stack_entries(*final(s)) == stack_entries(*old(s)).drop_last(),
{
    s.pop()
}

/// Relies on `ArrayVec::len`: the number of elements held.
#[verifier::external_body]
pub fn stack_len(s: &ArrayVec<u16, 16>) -> (r: usize)
    ensures
        r == stack_entries(*s).len(),
{
    s.len()
}

/// Relies on `ArrayVec`'s deref to a slice and slice indexing: the element
/// at `i`, counting from the bottom of the stack.
#[verifier::external_body]
pub fn stack_get(s: &ArrayVec<u16, 16>, i: usize) -> (r: u16)
    requires
        i < stack_entries(*s).len(),
    ensures
        r == stack_entries(*s)[i as int],
{
    s[i]
}

} // verus!
