use vstd::prelude::*;

use arrayvec::ArrayVec;

verus! {

#[verifier::external_type_specification]
#[verifier::external_body]
#[verifier::reject_recursive_types(T)]
pub struct ExArrayVec<T, const CAP: usize>(ArrayVec<T, CAP>);

/// A display name: at most 8 basename bytes, a dot and 3 extension bytes.
pub type NameBuf = ArrayVec<u8, 12>;

/// The bytes that a name buffer holds, in order.
pub uninterp spec fn name_bytes(v: ArrayVec<u8, 12>) -> Seq<u8>;

/// Relies on `ArrayVec::new`: a new buffer is empty.
#[verifier::external_body]
pub(crate) fn name_new() -> (r: NameBuf)
    ensures
        name_bytes(r) == Seq::<u8>::empty(),
{
    ArrayVec::new()
}

/// Relies on `ArrayVec::push`: appends one byte; it panics on a full
/// buffer, which the precondition rules out.
#[verifier::external_body]
pub(crate) fn name_push(v: &mut NameBuf, b: u8)
    requires
        name_bytes(*old(v)).len() < 12,
    ensures
        name_bytes(*final(v)) == name_bytes(*old(v)).push(b),
{
    v.push(b)
}

/// Relies on `ArrayVec::as_slice`: the bytes held, in order.
#[verifier::external_body]
pub(crate) fn name_as_slice(v: &NameBuf) -> (r: &[u8])
    ensures
        r@ == name_bytes(*v),
{
    v.as_slice()
}

} // verus!
