//! Growable byte buffers of the `bytes` crate, as the SOCKS5 messages are
//! built in them.

use bytes::{BufMut, BytesMut};
use vstd::prelude::*;

use crate::packet::u16_be_bytes;

verus! {

/// `bytes::BytesMut`, a growable buffer of bytes. Nothing of its inside is
/// known here; `buffer_bytes` names what it holds.
#[verifier::external_type_specification]
#[verifier::external_body]
pub struct ExBytesMut(bytes::BytesMut);

/// The bytes that a buffer holds, in order: what `&buf[..]` shows.
pub uninterp spec fn buffer_bytes(buf: BytesMut) -> Seq<u8>;

/// `BytesMut::new`: a buffer that holds no bytes.
#[verifier::external_body]
pub(crate) fn buffer_new() -> (buf: BytesMut)
    ensures
        buffer_bytes(buf) == Seq::<u8>::empty(),
{
    BytesMut::new()
}

/// `BufMut::put_u8` on a `BytesMut`: the byte is appended. The buffer grows
/// as needed; the call panics only where the buffer would pass `isize::MAX`
/// bytes, which `requires` leaves out.
#[verifier::external_body]
pub(crate) fn buffer_put_u8(buf: &mut BytesMut, n: u8)
    requires
        buffer_bytes(*old(buf)).len() + 1 <= isize::MAX,
    ensures
        buffer_bytes(*final(buf)) == buffer_bytes(*old(buf)).push(n),
{
    buf.put_u8(n)
}

/// `BufMut::put_u16` on a `BytesMut`: the two bytes of the number are
/// appended, the more significant one first.
#[verifier::external_body]
pub(crate) fn buffer_put_u16(buf: &mut BytesMut, n: u16)
    requires
        buffer_bytes(*old(buf)).len() + 2 <= isize::MAX,
    ensures
        buffer_bytes(*final(buf)) == buffer_bytes(*old(buf)) + u16_be_bytes(n),
{
    buf.put_u16(n)
}

/// `BufMut::put_slice` on a `BytesMut`: the bytes of the slice are appended
/// in their order.
#[verifier::external_body]
pub(crate) fn buffer_put_slice(buf: &mut BytesMut, src: &[u8])
    requires
        buffer_bytes(*old(buf)).len() + src@.len() <= isize::MAX,
    ensures
        buffer_bytes(*final(buf)) == buffer_bytes(*old(buf)) + src@,
{
    buf.put_slice(src)
}

/// `BufMut::put` on a `BytesMut`, with another `BytesMut` as the source: the
/// bytes of the source are appended in their order.
#[verifier::external_body]
pub(crate) fn buffer_put(buf: &mut BytesMut, src: BytesMut)
    requires
        buffer_bytes(*old(buf)).len() + buffer_bytes(src).len() <= isize::MAX,
    ensures
        buffer_bytes(*final(buf)) == buffer_bytes(*old(buf)) + buffer_bytes(src),
{
    buf.put(src)
}

} // verus!
