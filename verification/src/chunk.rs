//! Chunks of a blob body as the upstream hands them over.

use vstd::prelude::*;

verus! {

/// The reference counted byte buffer in which upstream chunks arrive.
#[verifier::external_type_specification]
#[verifier::external_body]
pub struct ExBytes(bytes::Bytes);

/// The bytes that a buffer holds, in order.
pub uninterp spec fn held(b: bytes::Bytes) -> Seq<u8>;

/// `bytes::Bytes::len`: how many bytes the buffer holds.
#[verifier::external_body]
pub(crate) fn chunk_len(b: &bytes::Bytes) -> (n: usize)
    ensures
        n == held(*b).len(),
{
    b.len()
}

/// `bytes::Bytes::slice`: a buffer over the bytes at the positions `from..to` of this one.
/// The call panics unless `from <= to` and `to` is at most the length.
#[verifier::external_body]
pub(crate) fn chunk_slice(b: &bytes::Bytes, from: usize, to: usize) -> (r: bytes::Bytes)
    requires
        from <= to <= held(*b).len(),
    ensures
        held(r) == held(*b).subrange(from as int, to as int),
{
    b.slice(from..to)
}

/// `bytes::Bytes::from` on a vector: a buffer over the vector's bytes.
#[verifier::external_body]
pub(crate) fn chunk_from_vec(v: Vec<u8>) -> (r: bytes::Bytes)
    ensures
        held(r) == v@,
{
    bytes::Bytes::from(v)
}

} // verus!
