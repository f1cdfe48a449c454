//! Byte buffers that are shared rather than copied.

use crate::wire::be16;
use bytes::{BufMut, Bytes, BytesMut};
use vstd::prelude::*;

verus! {

#[verifier::external_type_specification]
#[verifier::external_body]
pub struct ExBytes(bytes::Bytes);

/// What a buffer holds.
pub uninterp spec fn bytes_view(bytes: Bytes) -> Seq<u8>;

/// `bytes::Bytes::new`: an empty buffer.
#[verifier::external_body]
pub(crate) fn bytes_empty() -> (bytes: Bytes)
    ensures
        bytes_view(bytes) == Seq::<u8>::empty(),
{
    Bytes::new()
}

/// `bytes::Bytes::copy_from_slice`: a buffer that holds what the slice does.
#[verifier::external_body]
pub(crate) fn bytes_copy(data: &[u8]) -> (bytes: Bytes)
    ensures
        bytes_view(bytes) == data@,
{
    Bytes::copy_from_slice(data)
}

/// `bytes::Bytes::as_ref`: what the buffer holds, as a slice.
#[verifier::external_body]
pub(crate) fn bytes_slice(bytes: &Bytes) -> (data: &[u8])
    ensures
        data@ == bytes_view(*bytes),
{
    bytes.as_ref()
}

/// `bytes::Bytes::split_to`: takes the first `at` bytes off the front. It panics where there are
/// fewer.
#[verifier::external_body]
pub(crate) fn bytes_split_to(bytes: &mut Bytes, at: usize) -> (front: Bytes)
    requires
        at <= bytes_view(*old(bytes)).len(),
    ensures
        bytes_view(front) == bytes_view(*old(bytes)).take(at as int),
        bytes_view(*final(bytes)) == bytes_view(*old(bytes)).skip(at as int),
{
    bytes.split_to(at)
}

/// `bytes::BufMut::put` on a vector: appends what the buffer holds.
#[verifier::external_body]
pub(crate) fn put(buf: &mut Vec<u8>, bytes: Bytes)
    ensures
        final(buf)@ == old(buf)@ + bytes_view(bytes),
{
    buf.put(bytes)
}

#[verifier::external_type_specification]
#[verifier::external_body]
pub struct ExBytesMut(bytes::BytesMut);

/// What a growing buffer holds.
pub uninterp spec fn bytes_mut_view(buf: BytesMut) -> Seq<u8>;

/// `bytes::BytesMut::with_capacity`: an empty buffer.
#[verifier::external_body]
pub(crate) fn bytes_mut_with_capacity(capacity: usize) -> (buf: BytesMut)
    ensures
        bytes_mut_view(buf) == Seq::<u8>::empty(),
{
    BytesMut::with_capacity(capacity)
}

/// `bytes::BufMut::put_u8`: appends a byte.
#[verifier::external_body]
pub(crate) fn put_u8(buf: &mut BytesMut, byte: u8)
    ensures
        bytes_mut_view(*final(buf)) == bytes_mut_view(*old(buf)).push(byte),
{
    buf.put_u8(byte)
}

/// `bytes::BufMut::put_u16`: appends a number, most significant byte first.
#[verifier::external_body]
pub(crate) fn put_u16(buf: &mut BytesMut, number: u16)
    ensures
        bytes_mut_view(*final(buf)) == bytes_mut_view(*old(buf)) + be16(number),
{
    buf.put_u16(number)
}

/// `bytes::BufMut::put_slice`: appends bytes.
#[verifier::external_body]
pub(crate) fn put_slice(buf: &mut BytesMut, data: &[u8])
    ensures
        bytes_mut_view(*final(buf)) == bytes_mut_view(*old(buf)) + data@,
{
    buf.put_slice(data)
}

/// `bytes::BytesMut`, as a vector: what the buffer holds.
#[verifier::external_body]
pub(crate) fn bytes_mut_to_vec(buf: BytesMut) -> (data: Vec<u8>)
    ensures
        data@ == bytes_mut_view(buf),
{
    buf.into()
}

/// Copies the first `n` bytes of `src` over those of `dst`.
pub(crate) fn copy_front(dst: &mut [u8], src: &[u8], n: usize)
    requires
        n <= old(dst)@.len(),
        n <= src@.len(),
    ensures
        final(dst)@ == src@.take(n as int) + old(dst)@.skip(n as int),
{
    let mut i: usize = 0;
    while i < n
        invariant
            i <= n,
            n <= old(dst)@.len(),
            n <= src@.len(),
            dst@ == src@.take(i as int) + old(dst)@.skip(i as int),
        decreases n - i,
    {
        dst[i] = src[i];
        i = i + 1;
        proof {
            assert(dst@ =~= src@.take(i as int) + old(dst)@.skip(i as int));
        }
    }
}

} // verus!
