//! Octet buffers handed out by the codec, from the `bytes` crate.

use vstd::prelude::*;
use bytes::Bytes;

verus! {

#[verifier::external_type_specification]
#[verifier::external_body]
pub struct ExBytes(Bytes);

/// The octets a `Bytes` buffer holds.
pub uninterp spec fn bytes_contents(b: Bytes) -> Seq<u8>;

/// Relies on `From<Vec<u8>> for Bytes`: the buffer takes over the vector's
/// octets.
#[verifier::external_body]
pub fn bytes_from_vec(v: Vec<u8>) -> (r: Bytes)
    ensures
        bytes_contents(r) == v@,
{
    Bytes::from(v)
}

/// Relies on `Bytes::copy_from_slice`: the buffer holds a copy of the slice.
#[verifier::external_body]
pub fn bytes_copy_from_slice(s: &[u8]) -> (r: Bytes)
    ensures
        bytes_contents(r) == s@,
{
    Bytes::copy_from_slice(s)
}

} // verus!
