//! The bounded payload buffer, held in an `arrayvec::ArrayVec`.
use arrayvec::ArrayVec;
use vstd::prelude::*;

use super::MAX_NN;

verus! {

#[verifier::external_type_specification]
#[verifier::external_body]
#[verifier::reject_recursive_types(T)]
pub struct ExArrayVec<T, const CAP: usize>(ArrayVec<T, CAP>);

/// The octets that a payload buffer holds, in order.
pub uninterp spec fn payload_items(v: ArrayVec<u8, MAX_NN>) -> Seq<u8>;

/// Relies on `ArrayVec::new`: a new vector holds no element.
#[verifier::external_body]
pub(crate) fn payload_new() -> (r: ArrayVec<u8, MAX_NN>)
    ensures
        payload_items(r) == Seq::<u8>::empty(),
{
    ArrayVec::new()
}

/// Relies on `ArrayVec::clear`: every element is removed.
#[verifier::external_body]
pub(crate) fn payload_clear(v: &mut ArrayVec<u8, MAX_NN>)
    ensures
        payload_items(*final(v)) == Seq::<u8>::empty(),
{
    v.clear()
}

/// Relies on `ArrayVec::push`: the element is appended; it panics only when
/// the vector is full.
#[verifier::external_body]
pub(crate) fn payload_push(v: &mut ArrayVec<u8, MAX_NN>, b: u8)
    requires
        payload_items(*old(v)).len() < MAX_NN,
    ensures
        payload_items(*final(v)) == payload_items(*old(v)).push(b),
{
    v.push(b)
}

/// Relies on `ArrayVec::len`: the number of elements held.
#[verifier::external_body]
pub(crate) fn payload_len(v: &ArrayVec<u8, MAX_NN>) -> (r: usize)
    ensures
        r == payload_items(*v).len(),
{
    v.len()
}

/// Relies on `ArrayVec::as_slice`: the elements held, in order.
#[verifier::external_body]
pub(crate) fn payload_slice(v: &ArrayVec<u8, MAX_NN>) -> (r: &[u8])
    ensures
        r@ == payload_items(*v),
{
    v.as_slice()
}

} // verus!
