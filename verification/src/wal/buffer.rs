//! The growable byte buffer that records are assembled in.
//!
//! The buffer is `bytes::BytesMut`. Verus cannot look inside it, so its
//! contents are named by [`buffer_bytes`] and each method the codec calls is
//! given a contract over that name.

use bytes::BufMut;
use vstd::bytes::{spec_u32_to_le_bytes, spec_u64_to_le_bytes};
use vstd::prelude::*;

verus! {

/// Makes `bytes::BytesMut` known as a type whose inside is not looked at.
#[verifier::external_type_specification]
#[verifier::external_body]
pub struct ExBytesMut(bytes::BytesMut);

/// The bytes a buffer holds, first written first.
pub uninterp spec fn buffer_bytes(buf: bytes::BytesMut) -> Seq<u8>;

/// `BytesMut::new`. Trusted: a new buffer holds no bytes.
#[verifier::external_body]
pub(crate) fn buffer_new() -> (buf: bytes::BytesMut)
    ensures
        buffer_bytes(buf) == Seq::<u8>::empty(),
{
    bytes::BytesMut::new()
}

/// `BufMut::put_u8` on a `BytesMut`. Trusted: appends the one byte. The
/// buffer can grow up to `isize::MAX` bytes; beyond that the call panics, so
/// such a call is excluded.
#[verifier::external_body]
pub(crate) fn buffer_put_u8(buf: &mut bytes::BytesMut, n: u8)
    requires
        buffer_bytes(*old(buf)).len() + 1 <= isize::MAX,
    ensures
        buffer_bytes(*final(buf)) == buffer_bytes(*old(buf)).push(n),
{
    buf.put_u8(n)
}

/// `BufMut::put_u32_le` on a `BytesMut`. Trusted: appends the four bytes of
/// `n`, least significant first.
#[verifier::external_body]
pub(crate) fn buffer_put_u32_le(buf: &mut bytes::BytesMut, n: u32)
    requires
        buffer_bytes(*old(buf)).len() + 4 <= isize::MAX,
    ensures
        buffer_bytes(*final(buf)) == buffer_bytes(*old(buf)) + spec_u32_to_le_bytes(n),
{
    buf.put_u32_le(n)
}

/// `BufMut::put_u64_le` on a `BytesMut`. Trusted: appends the eight bytes of
/// `n`, least significant first.
#[verifier::external_body]
pub(crate) fn buffer_put_u64_le(buf: &mut bytes::BytesMut, n: u64)
    requires
        buffer_bytes(*old(buf)).len() + 8 <= isize::MAX,
    ensures
        buffer_bytes(*final(buf)) == buffer_bytes(*old(buf)) + spec_u64_to_le_bytes(n),
{
    buf.put_u64_le(n)
}

/// `BufMut::put_slice` on a `BytesMut`. Trusted: appends the bytes of `src`
/// in order.
#[verifier::external_body]
pub(crate) fn buffer_put_slice(buf: &mut bytes::BytesMut, src: &[u8])
    requires
        buffer_bytes(*old(buf)).len() + src@.len() <= isize::MAX,
    ensures
        buffer_bytes(*final(buf)) == buffer_bytes(*old(buf)) + src@,
{
    buf.put_slice(src)
}

/// Borrows the buffer's bytes through its `Deref` to a byte slice.
/// Trusted: the slice holds the buffer's bytes.
#[verifier::external_body]
pub(crate) fn buffer_as_slice(buf: &bytes::BytesMut) -> (out: &[u8])
    ensures
        out@ == buffer_bytes(*buf),
{
    &buf[..]
}

} // verus!
