//! Byte ring buffers of the TCP stack.
//!
//! The buffers themselves are `smoltcp`'s; what they hold is named here, and each operation the
//! stack performs on one is described over that name.

use smoltcp::storage::RingBuffer;
use vstd::prelude::*;

verus! {

#[verifier::external_type_specification]
#[verifier::external_body]
#[verifier::reject_recursive_types(T)]
pub struct ExRingBuffer<'a, T: 'a>(smoltcp::storage::RingBuffer<'a, T>);

/// The bytes a ring buffer holds, oldest first.
pub uninterp spec fn ring_bytes(ring: RingBuffer<'static, u8>) -> Seq<u8>;

/// The most bytes a ring buffer can hold at a time.
pub uninterp spec fn ring_capacity(ring: RingBuffer<'static, u8>) -> nat;

/// How many more bytes fit behind `len` bytes where `capacity` is the most.
pub open spec fn room(len: nat, capacity: nat) -> nat {
    if len < capacity {
        (capacity - len) as nat
    } else {
        0
    }
}

/// The smaller of two counts.
pub open spec fn least(a: nat, b: nat) -> nat {
    if a <= b {
        a
    } else {
        b
    }
}

/// `smoltcp::storage::RingBuffer::new`: an empty buffer over the given storage, as large as it.
#[verifier::external_body]
pub(crate) fn ring_new(storage: Vec<u8>) -> (ring: RingBuffer<'static, u8>)
    ensures
        ring_bytes(ring) == Seq::<u8>::empty(),
        ring_capacity(ring) == storage@.len(),
{
    RingBuffer::new(storage)
}

/// `smoltcp::storage::RingBuffer::is_empty`: whether nothing is held.
#[verifier::external_body]
pub(crate) fn ring_is_empty(ring: &RingBuffer<'static, u8>) -> (empty: bool)
    ensures
        empty == (ring_bytes(*ring).len() == 0),
{
    ring.is_empty()
}

/// `smoltcp::storage::RingBuffer::is_full`: whether no byte more fits.
#[verifier::external_body]
pub(crate) fn ring_is_full(ring: &RingBuffer<'static, u8>) -> (full: bool)
    ensures
        full == (room(ring_bytes(*ring).len(), ring_capacity(*ring)) == 0),
{
    ring.is_full()
}

/// `smoltcp::storage::RingBuffer::enqueue_slice`: appends as much of the front of `data` as fits
/// and returns how much that was.
#[verifier::external_body]
pub(crate) fn ring_enqueue_slice(ring: &mut RingBuffer<'static, u8>, data: &[u8]) -> (n: usize)
    ensures
        n == least(data@.len(), room(ring_bytes(*old(ring)).len(), ring_capacity(*old(ring)))),
        ring_bytes(*final(ring)) == ring_bytes(*old(ring)) + data@.take(n as int),
        ring_capacity(*final(ring)) == ring_capacity(*old(ring)),
{
    ring.enqueue_slice(data)
}

/// `smoltcp::storage::RingBuffer::dequeue_slice`: moves as much of the oldest content as fits to
/// the front of `data`, leaves the rest of `data` as it was, and returns how much that was.
#[verifier::external_body]
pub(crate) fn ring_dequeue_slice(ring: &mut RingBuffer<'static, u8>, data: &mut [u8]) -> (n: usize)
    ensures
        n == least(old(data)@.len(), ring_bytes(*old(ring)).len()),
        final(data)@ == ring_bytes(*old(ring)).take(n as int) + old(data)@.skip(n as int),
        ring_bytes(*final(ring)) == ring_bytes(*old(ring)).skip(n as int),
        ring_capacity(*final(ring)) == ring_capacity(*old(ring)),
{
    ring.dequeue_slice(data)
}

/// Takes the front of `chunk` into the ring, for a reader that then drops as much of its own.
pub(crate) fn absorb(ring: &mut RingBuffer<'static, u8>, chunk: &[u8]) -> (taken: (usize, usize))
    ensures
        taken.0 == taken.1,
        taken.0 == least(
            chunk@.len(),
            room(ring_bytes(*old(ring)).len(), ring_capacity(*old(ring))),
        ),
        ring_bytes(*final(ring)) == ring_bytes(*old(ring)) + chunk@.take(taken.0 as int),
        ring_capacity(*final(ring)) == ring_capacity(*old(ring)),
{
    let n: usize = ring_enqueue_slice(ring, chunk);
    (n, n)
}

/// Gives the ring's oldest bytes to `chunk`, for a writer that then counts them as its own.
pub(crate) fn release(ring: &mut RingBuffer<'static, u8>, chunk: &mut [u8]) -> (given: (
    usize,
    usize,
))
    ensures
        given.0 == given.1,
        given.0 == least(old(chunk)@.len(), ring_bytes(*old(ring)).len()),
        final(chunk)@ == ring_bytes(*old(ring)).take(given.0 as int) + old(chunk)@.skip(
            given.0 as int,
        ),
        ring_bytes(*final(ring)) == ring_bytes(*old(ring)).skip(given.0 as int),
        ring_capacity(*final(ring)) == ring_capacity(*old(ring)),
{
    let n: usize = ring_dequeue_slice(ring, chunk);
    (n, n)
}

} // verus!
