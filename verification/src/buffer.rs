//! A growable byte buffer: `BytesMut` of the `bytes` crate.
use bytes::{BufMut, BytesMut};
use vstd::prelude::*;

verus! {

/// The byte buffer of the `bytes` crate.
#[verifier::external_type_specification]
#[verifier::external_body]
pub struct ExBytesMut(BytesMut);

/// The bytes that a buffer holds.
pub uninterp spec fn held(buf: BytesMut) -> Seq<u8>;

/// `more` bytes can be appended: a buffer holds at most `isize::MAX`.
pub open spec fn fits(buf: BytesMut, more: nat) -> bool {
    held(buf).len() + more <= isize::MAX
}

/// `BytesMut::new` makes an empty buffer.
#[verifier::external_body]
pub(crate) fn new_buffer() -> (r: BytesMut)
    ensures
        held(r) == Seq::<u8>::empty(),
{
    BytesMut::new()
}

/// `BytesMut::is_empty` tells whether the buffer holds no bytes.
#[verifier::external_body]
pub(crate) fn buffer_is_empty(buf: &BytesMut) -> (r: bool)
    ensures
        r == (held(*buf).len() == 0),
{
    buf.is_empty()
}

/// `BufMut::put_slice` appends the bytes of a slice.
#[verifier::external_body]
pub(crate) fn put_slice(buf: &mut BytesMut, bytes: &[u8])
    requires
        fits(*old(buf), bytes@.len()),
    ensures
        held(*final(buf)) == held(*old(buf)) + bytes@,
{
    buf.put_slice(bytes);
}

/// `BufMut::put_u8` appends one byte.
#[verifier::external_body]
pub(crate) fn put_u8(buf: &mut BytesMut, n: u8)
    requires
        fits(*old(buf), 1),
    ensures
        held(*final(buf)) == held(*old(buf)) + seq![n],
{
    buf.put_u8(n);
}

/// `BufMut::put_u16` appends two bytes, the more significant first.
#[verifier::external_body]
pub(crate) fn put_u16(buf: &mut BytesMut, n: u16)
    requires
        fits(*old(buf), 2),
    ensures
        held(*final(buf)) == held(*old(buf)) + crate::wire::be(n as nat, 2),
{
    buf.put_u16(n);
}

/// `BufMut::put_u16_le` appends two bytes, the less significant first.
#[verifier::external_body]
pub(crate) fn put_u16_le(buf: &mut BytesMut, n: u16)
    requires
        fits(*old(buf), 2),
    ensures
        held(*final(buf)) == held(*old(buf)) + crate::wire::le(n as nat, 2),
{
    buf.put_u16_le(n);
}

/// `BufMut::put_u32` appends four bytes, the most significant first.
#[verifier::external_body]
pub(crate) fn put_u32(buf: &mut BytesMut, n: u32)
    requires
        fits(*old(buf), 4),
    ensures
        held(*final(buf)) == held(*old(buf)) + crate::wire::be(n as nat, 4),
{
    buf.put_u32(n);
}

/// `BufMut::put_u32_le` appends four bytes, the least significant first.
#[verifier::external_body]
pub(crate) fn put_u32_le(buf: &mut BytesMut, n: u32)
    requires
        fits(*old(buf), 4),
    ensures
        held(*final(buf)) == held(*old(buf)) + crate::wire::le(n as nat, 4),
{
    buf.put_u32_le(n);
}

/// `BufMut::put_u64_le` appends eight bytes, the least significant first.
#[verifier::external_body]
pub(crate) fn put_u64_le(buf: &mut BytesMut, n: u64)
    requires
        fits(*old(buf), 8),
    ensures
        held(*final(buf)) == held(*old(buf)) + crate::wire::le(n as nat, 8),
{
    buf.put_u64_le(n);
}

/// `BufMut::put_i64_le` appends eight bytes of two's complement, the least
/// significant first.
#[verifier::external_body]
pub(crate) fn put_i64_le(buf: &mut BytesMut, n: i64)
    requires
        fits(*old(buf), 8),
    ensures
        held(*final(buf)) == held(*old(buf)) + crate::wire::le_signed(n as int, 8),
{
    buf.put_i64_le(n);
}

} // verus!
