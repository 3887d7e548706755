//! Byte buffers of the `bytes` crate, with what their operations do to the bytes they hold.

use bytes::{Buf, BufMut, BytesMut};
use vstd::prelude::*;

verus! {

/// The growable byte buffer of the `bytes` crate.
#[verifier::external_type_specification]
#[verifier::external_body]
pub struct ExBytesMut(BytesMut);

/// The bytes that a buffer holds, from its read position to its end.
pub uninterp spec fn buffer_bytes(buffer: BytesMut) -> Seq<u8>;

/// The two bytes of a number, most significant first.
pub open spec fn be_bytes_16(n: u16) -> Seq<u8> {
    seq![(n / 0x100) as u8, (n % 0x100) as u8]
}

/// The four bytes of a number, most significant first.
pub open spec fn be_bytes_32(n: u32) -> Seq<u8> {
    seq![
        (n / 0x100_0000) as u8,
        (n / 0x1_0000 % 0x100) as u8,
        (n / 0x100 % 0x100) as u8,
        (n % 0x100) as u8,
    ]
}

/// The number whose four bytes, most significant first, start a sequence.
pub open spec fn be_number_32(bytes: Seq<u8>) -> int {
    bytes[0] * 0x100_0000 + bytes[1] * 0x1_0000 + bytes[2] * 0x100 + bytes[3]
}

/// Reading four big-endian bytes gives back the number they were written from.
pub proof fn lemma_be_number_of_bytes(n: u32, rest: Seq<u8>)
    ensures
        be_number_32(be_bytes_32(n) + rest) == n,
        be_bytes_32(n).len() == 4,
{
}

/// `BytesMut::new`: the buffer holds nothing.
#[verifier::external_body]
pub(crate) fn new_buffer() -> (buffer: BytesMut)
    ensures
        buffer_bytes(buffer) == Seq::<u8>::empty(),
{
    BytesMut::new()
}

/// `BytesMut::with_capacity`: the buffer holds nothing, whatever it has room for.
#[verifier::external_body]
pub(crate) fn buffer_with_capacity(capacity: usize) -> (buffer: BytesMut)
    requires
        capacity <= isize::MAX,
    ensures
        buffer_bytes(buffer) == Seq::<u8>::empty(),
{
    BytesMut::with_capacity(capacity)
}

/// `BufMut::put_u16`: the number is appended in big-endian order. A buffer holds at most
/// `isize::MAX` bytes.
#[verifier::external_body]
pub(crate) fn put_u16(buffer: &mut BytesMut, n: u16)
    requires
        buffer_bytes(*old(buffer)).len() + 2 <= isize::MAX,
    ensures
        buffer_bytes(*final(buffer)) == buffer_bytes(*old(buffer)) + be_bytes_16(n),
{
    buffer.put_u16(n)
}

/// `BufMut::put_u32`: the number is appended in big-endian order.
#[verifier::external_body]
pub(crate) fn put_u32(buffer: &mut BytesMut, n: u32)
    requires
        buffer_bytes(*old(buffer)).len() + 4 <= isize::MAX,
    ensures
        buffer_bytes(*final(buffer)) == buffer_bytes(*old(buffer)) + be_bytes_32(n),
{
    buffer.put_u32(n)
}

/// `BufMut::put_slice`: the bytes are appended.
#[verifier::external_body]
pub(crate) fn put_slice(buffer: &mut BytesMut, bytes: &[u8])
    requires
        buffer_bytes(*old(buffer)).len() + bytes@.len() <= isize::MAX,
    ensures
        buffer_bytes(*final(buffer)) == buffer_bytes(*old(buffer)) + bytes@,
{
    buffer.put_slice(bytes)
}

/// `Buf::get_u32`: the first four bytes are taken off the front and read in big-endian order.
#[verifier::external_body]
pub(crate) fn get_u32(buffer: &mut BytesMut) -> (n: u32)
    requires
        buffer_bytes(*old(buffer)).len() >= 4,
    ensures
        n == be_number_32(buffer_bytes(*old(buffer))),
        buffer_bytes(*final(buffer)) == buffer_bytes(*old(buffer)).skip(4),
{
    buffer.get_u32()
}

/// `BytesMut::split`: all the bytes move to the returned buffer.
#[verifier::external_body]
pub(crate) fn split(buffer: &mut BytesMut) -> (taken: BytesMut)
    ensures
        buffer_bytes(taken) == buffer_bytes(*old(buffer)),
        buffer_bytes(*final(buffer)) == Seq::<u8>::empty(),
{
    buffer.split()
}

/// `BytesMut::clear`: the buffer holds nothing any more.
#[verifier::external_body]
pub(crate) fn clear(buffer: &mut BytesMut)
    ensures
        buffer_bytes(*final(buffer)) == Seq::<u8>::empty(),
{
    buffer.clear()
}

/// `BytesMut::deref`: the bytes of the buffer, in place.
#[verifier::external_body]
pub(crate) fn as_slice(buffer: &BytesMut) -> (bytes: &[u8])
    ensures
        bytes@ == buffer_bytes(*buffer),
{
    buffer
}

} // verus!
