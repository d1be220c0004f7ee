//! The growable byte buffer in which messages are assembled.

use bytes::{BufMut, BytesMut};
use vstd::prelude::*;

use crate::proto::le16;

verus! {

/// `bytes::BytesMut`, a growable buffer of bytes. Nothing is claimed of it here.
#[verifier::external_type_specification]
#[verifier::external_body]
pub struct ExBytesMut(bytes::BytesMut);

/// The bytes that a buffer holds, in order.
pub uninterp spec fn contents(buf: BytesMut) -> Seq<u8>;

/// `BytesMut::with_capacity`: the buffer starts out empty. A capacity beyond
/// `isize::MAX` would panic and is ruled out.
#[verifier::external_body]
pub(crate) fn with_capacity(capacity: usize) -> (buf: BytesMut)
    requires
        capacity <= isize::MAX,
    ensures
        contents(buf) == Seq::<u8>::empty(),
{
    BytesMut::with_capacity(capacity)
}

/// `BufMut::put_u8`: appends one byte.
#[verifier::external_body]
pub(crate) fn put_u8(buf: &mut BytesMut, byte: u8)
    requires
        contents(*old(buf)).len() < isize::MAX,
    ensures
        contents(*final(buf)) == contents(*old(buf)).push(byte),
{
    buf.put_u8(byte)
}

/// `BufMut::put_u16_le`: appends the two bytes of a number, the low one first.
#[verifier::external_body]
pub(crate) fn put_u16_le(buf: &mut BytesMut, number: u16)
    requires
        contents(*old(buf)).len() + 2 <= isize::MAX,
    ensures
        contents(*final(buf)) == contents(*old(buf)) + le16(number),
{
    buf.put_u16_le(number)
}

/// `BytesMut::extend_from_slice`: appends all bytes of a slice.
#[verifier::external_body]
pub(crate) fn extend_from_slice(buf: &mut BytesMut, bytes: &[u8])
    requires
        contents(*old(buf)).len() + bytes@.len() <= isize::MAX,
    ensures
        contents(*final(buf)) == contents(*old(buf)) + bytes@,
{
    buf.extend_from_slice(bytes)
}

/// `BytesMut` read through `Deref` as a slice and copied out.
#[verifier::external_body]
pub(crate) fn to_vec(buf: &BytesMut) -> (bytes: Vec<u8>)
    ensures
        bytes@ == contents(*buf),
{
    buf.to_vec()
}

} // verus!
