//! Messages on their way to and from a remote resolver.

use crate::fake_dns::message::{decoded, encoded, from_vec, server_message, to_vec};
use crate::wire::{be, be16, law_be16_reads_back};
use byteorder::{BigEndian, ByteOrder};
use hickory_resolver::proto::op::Message;
use vstd::prelude::*;

verus! {

/// The largest datagram that is read.
pub const UDP_BUFFER_SIZE: usize = 512;

/// Why a message could not be passed on.
#[derive(Debug, Clone, Copy, PartialEq, Eq, Structural)]
pub enum CodecError {
    /// The bytes hold no message.
    Decode,
    /// The message cannot be written.
    Encode,
}

/// `byteorder::BigEndian::read_u16`: the number of the first two bytes, most significant first.
/// It panics where there are fewer.
#[verifier::external_body]
fn big_endian_read_u16(buf: &[u8]) -> (number: u16)
    requires
        2 <= buf@.len(),
    ensures
        number == be(buf@.take(2)),
{
    BigEndian::read_u16(buf)
}

/// `byteorder::BigEndian::write_u16`: puts a number over the first two bytes, most significant
/// first. It panics where there are fewer.
#[verifier::external_body]
fn big_endian_write_u16(buf: &mut [u8], number: u16)
    requires
        2 <= old(buf)@.len(),
    ensures
        final(buf)@ == be16(number) + old(buf)@.skip(2),
{
    BigEndian::write_u16(buf, number)
}

/// The bytes of a packet on a stream: what two bytes can say of its length, and the packet.
pub open spec fn framed(packet: Seq<u8>) -> Seq<u8> {
    be16((packet.len() % 0x1_0000) as u16) + packet
}

/// Puts the length in front of a packet.
pub fn frame(packet: &[u8]) -> (bytes: Vec<u8>)
    ensures
        bytes@ == framed(packet@),
{
    let len: usize = packet.len();
    proof {
        assert(len as u16 == len % 0x1_0000) by (bit_vector);
    }
    let mut bytes: Vec<u8> = vec![0u8; 2];
    bytes.extend_from_slice(packet);
    big_endian_write_u16(bytes.as_mut_slice(), len as u16);
    proof {
        assert(bytes@ =~= framed(packet@));
    }
    bytes
}

/// How long the packet is that follows its length on a stream.
pub fn frame_len(head: [u8; 2]) -> (len: usize)
    ensures
        len == be(head@),
{
    proof {
        assert(head@.take(2) =~= head@);
    }
    big_endian_read_u16(head.as_slice()) as usize
}

/// Reads a message.
pub fn decode(packet: &[u8]) -> (message: Result<Message, CodecError>)
    ensures
        match (message, decoded(packet@)) {
            (Ok(m), Some(model)) => server_message(m) == model,
            (Err(e), None) => e is Decode,
            _ => false,
        },
{
    match from_vec(packet) {
        Ok(message) => Ok(message),
        Err(_) => Err(CodecError::Decode),
    }
}

/// Writes a message for a datagram.
pub fn encode(message: &Message) -> (packet: Result<Vec<u8>, CodecError>)
    ensures
        match (packet, encoded(server_message(*message))) {
            (Ok(p), Some(bytes)) => p@ == bytes,
            (Err(e), None) => e is Encode,
            _ => false,
        },
{
    match to_vec(message) {
        Ok(packet) => Ok(packet),
        Err(_) => Err(CodecError::Encode),
    }
}

/// The length in front of a packet is its own, as far as two bytes can say it.
pub proof fn law_frames_say_their_length(packet: Seq<u8>)
    requires
        packet.len() < 0x1_0000,
    ensures
        be(framed(packet).take(2)) == packet.len(),
        framed(packet).skip(2) == packet,
{
    assert(framed(packet).take(2) =~= be16(packet.len() as u16));
    assert(framed(packet).skip(2) =~= packet);
    law_be16_reads_back(packet.len() as u16);
}

/// Whether a look at the next byte of a connection shows that it is still there.
pub open spec fn shows_life(peeked: int, would_block: bool) -> bool {
    if peeked < 0 {
        would_block
    } else {
        peeked != 0
    }
}

/// A connection that has bytes is there, one that gives none is over, and one that cannot be
/// looked at is there exactly where that is for want of bytes.
pub proof fn law_connections_show_life(peeked: int, would_block: bool)
    ensures
        peeked > 0 ==> shows_life(peeked, would_block),
        !shows_life(0, would_block),
        peeked < 0 ==> shows_life(peeked, true) && !shows_life(peeked, false),
{
}

/// Whether a connection is still there, by what a look at its next byte came to: how many bytes
/// there were, and whether there would have been a wait.
pub fn still_connected(peeked: i64, would_block: bool) -> (connected: bool)
    ensures
        connected == (peeked > 0 || (peeked < 0 && would_block)),
        connected == shows_life(peeked as int, would_block),
{
    if peeked > 0 {
        true
    } else if peeked == 0 {
        false
    } else {
        would_block
    }
}

/// A packet stands on a stream behind two bytes with its length, most significant first: as much
/// of it as two bytes can say. Nothing of the packet is lost.
pub proof fn law_frames_keep_their_packet(packet: Seq<u8>)
    ensures
        framed(packet).len() == packet.len() + 2,
        framed(packet)[0] * 256 + framed(packet)[1] == packet.len() % 0x1_0000,
        forall|i: int| 0 <= i < packet.len() ==> #[trigger] packet[i] == framed(packet)[i + 2],
{
}

} // verus!
