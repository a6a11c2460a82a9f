//! The byte buffers that tensors and frames carry.
use bytes::Bytes;
use vstd::prelude::*;

verus! {

/// `bytes::Bytes`: an immutable byte buffer that is cheap to clone.
#[verifier::external_type_specification]
#[verifier::external_body]
pub struct ExBytes(bytes::Bytes);

/// The bytes that a buffer holds, in order.
pub uninterp spec fn contents(buf: Bytes) -> Seq<u8>;

/// Wraps `bytes::Bytes::new`: an empty buffer.
#[verifier::external_body]
pub(crate) fn empty_buf() -> (buf: Bytes)
    ensures
        contents(buf) == Seq::<u8>::empty(),
{
    Bytes::new()
}

/// Wraps `<bytes::Bytes as From<Vec<u8>>>::from`: a buffer that takes over the vector's bytes.
#[verifier::external_body]
pub(crate) fn buf_from_vec(bytes: Vec<u8>) -> (buf: Bytes)
    ensures
        contents(buf) == bytes@,
{
    Bytes::from(bytes)
}

/// Wraps `<bytes::Bytes as Clone>::clone`: a second handle on the same bytes.
#[verifier::external_body]
pub(crate) fn share_buf(buf: &Bytes) -> (copy: Bytes)
    ensures
        contents(copy) == contents(*buf),
{
    buf.clone()
}

/// Wraps `bytes::Bytes::len`: the number of bytes that the buffer holds.
#[verifier::external_body]
pub(crate) fn buf_len(buf: &Bytes) -> (len: usize)
    ensures
        len == contents(*buf).len(),
{
    buf.len()
}

/// Wraps `<bytes::Bytes as Deref>::deref`: a view of the buffer's bytes as a slice.
#[verifier::external_body]
pub(crate) fn buf_slice(buf: &Bytes) -> (slice: &[u8])
    ensures
        slice@ == contents(*buf),
{
    buf
}

} // verus!
