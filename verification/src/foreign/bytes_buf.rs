//! Shared byte buffers: `bytes::Bytes`.
use vstd::prelude::*;

verus! {

/// `bytes::Bytes`, a cheaply cloned piece of memory that nobody writes to.
#[verifier::external_type_specification]
#[verifier::external_body]
pub struct ExBytes(bytes::Bytes);

/// The bytes that a buffer holds.
pub uninterp spec fn content(buffer: bytes::Bytes) -> Seq<u8>;

/// `Bytes::new`: a buffer that holds nothing.
#[verifier::external_body]
pub(crate) fn empty() -> (buffer: bytes::Bytes)
    ensures
        content(buffer) == Seq::<u8>::empty(),
{
    bytes::Bytes::new()
}

/// `Bytes::from(Vec<u8>)`: a buffer that holds what the vector held.
#[verifier::external_body]
pub(crate) fn from_vec(data: Vec<u8>) -> (buffer: bytes::Bytes)
    ensures
        content(buffer) == data@,
{
    bytes::Bytes::from(data)
}

/// `Bytes::from(String)`: a buffer that holds the bytes of the text.
#[verifier::external_body]
pub(crate) fn from_string(text: String) -> (buffer: bytes::Bytes)
    ensures
        content(buffer) == vstd::utf8::encode_utf8(text@),
{
    bytes::Bytes::from(text)
}

/// `Bytes::as_ref`: the bytes as a slice.
#[verifier::external_body]
pub(crate) fn as_slice(buffer: &bytes::Bytes) -> (data: &[u8])
    ensures
        data@ == content(*buffer),
{
    buffer.as_ref()
}

/// `Bytes::clone`: a second handle on the same bytes.
#[verifier::external_body]
pub(crate) fn share(buffer: &bytes::Bytes) -> (other: bytes::Bytes)
    ensures
        content(other) == content(*buffer),
{
    buffer.clone()
}

/// `Bytes::split_to`: parts the buffer at `at`, hands out what lies before and
/// keeps what lies behind. It panics on a place past the end.
#[verifier::external_body]
pub(crate) fn split_to(buffer: &mut bytes::Bytes, at: usize) -> (front: bytes::Bytes)
    requires
        at <= content(*old(buffer)).len(),
    ensures
        content(front) == content(*old(buffer)).take(at as int),
        content(*final(buffer)) == content(*old(buffer)).skip(at as int),
{
    buffer.split_to(at)
}

} // verus!
