//! Byte payloads of the `bytes` crate, and what they hold.

use bytes::Bytes;
use vstd::prelude::*;
use vstd::string::*;

verus! {

/// `bytes::Bytes`, seen through [`bytes_contents`].
#[verifier::external_type_specification]
#[verifier::external_body]
pub struct ExBytes(bytes::Bytes);

/// The bytes of a payload.
pub uninterp spec fn bytes_contents(payload: bytes::Bytes) -> Seq<u8>;

/// `bytes::Bytes::new`: the empty payload.
#[verifier::external_body]
pub(crate) fn empty_bytes() -> (r: Bytes)
    ensures
        bytes_contents(r) == Seq::<u8>::empty(),
{
    Bytes::new()
}

/// `bytes::Bytes::from` on a vector: a payload of its bytes.
#[verifier::external_body]
pub(crate) fn bytes_from_vec(bytes: Vec<u8>) -> (r: Bytes)
    ensures
        bytes_contents(r) == bytes@,
{
    Bytes::from(bytes)
}

/// `bytes::Bytes::from` on a string: a payload of its UTF-8 bytes.
#[verifier::external_body]
pub(crate) fn bytes_from_string(text: String) -> (r: Bytes)
    ensures
        bytes_contents(r) == vstd::utf8::encode_utf8(text@),
{
    Bytes::from(text)
}

/// `bytes::Bytes::from_static`: a payload of the bytes, which are not copied.
#[verifier::external_body]
pub(crate) fn bytes_from_static(bytes: &'static [u8]) -> (r: Bytes)
    ensures
        bytes_contents(r) == bytes@,
{
    Bytes::from_static(bytes)
}

/// `bytes::Bytes::clone`: a payload of the same bytes.
#[verifier::external_body]
pub(crate) fn clone_bytes(payload: &Bytes) -> (r: Bytes)
    ensures
        bytes_contents(r) == bytes_contents(*payload),
{
    payload.clone()
}

/// `bytes::Bytes::len`: the number of bytes.
#[verifier::external_body]
pub(crate) fn bytes_len(payload: &Bytes) -> (r: usize)
    ensures
        r == bytes_contents(*payload).len(),
{
    payload.len()
}

} // verus!
