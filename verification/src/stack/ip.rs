//! IP packets as the tunnel delivers them.

use crate::addr::IpAddr;
use crate::wire::{be, lemma_be2};
use smoltcp::wire::{IpVersion, Ipv4Packet, Ipv6Packet};
use vstd::prelude::*;

verus! {

#[verifier::external_type_specification]
#[verifier::external_body]
pub struct ExError(smoltcp::wire::Error);

/// The version that the first byte of a packet claims, where it is a known one.
pub open spec fn claimed_version(data: Seq<u8>) -> Option<u8> {
    if data[0] / 16 == 4 {
        Some(4)
    } else if data[0] / 16 == 6 {
        Some(6)
    } else {
        None
    }
}

/// The length of the header of an IPv4 packet, as its first byte gives it.
pub open spec fn ipv4_header_len(data: Seq<u8>) -> int {
    (data[0] % 16) * 4
}

/// The length of an IPv4 packet, as its header gives it.
pub open spec fn ipv4_total_len(data: Seq<u8>) -> int {
    be(data.subrange(2, 4)) as int
}

/// Whether the lengths that an IPv4 packet gives fit each other and the bytes that are there.
pub open spec fn valid_ipv4(data: Seq<u8>) -> bool {
    &&& 20 <= data.len()
    &&& ipv4_header_len(data) <= ipv4_total_len(data) <= data.len()
}

/// The length of an IPv6 packet, as its header gives it.
pub open spec fn ipv6_total_len(data: Seq<u8>) -> int {
    40 + be(data.subrange(4, 6)) as int
}

/// Whether the length that an IPv6 packet gives fits the bytes that are there.
pub open spec fn valid_ipv6(data: Seq<u8>) -> bool {
    &&& 40 <= data.len()
    &&& ipv6_total_len(data) <= data.len()
}

/// `smoltcp::wire::IpVersion::of_packet`: the version that the first byte gives. Fails where it
/// is neither 4 nor 6.
#[verifier::external_body]
fn version_of(data: &[u8]) -> (version: Result<u8, smoltcp::wire::Error>)
    requires
        data@.len() > 0,
    ensures
        version is Ok <==> claimed_version(data@) is Some,
        version matches Ok(v) ==> claimed_version(data@) == Some(v),
{
    match IpVersion::of_packet(data)? {
        IpVersion::Ipv4 => Ok(4),
        IpVersion::Ipv6 => Ok(6),
    }
}

/// `smoltcp::wire::Ipv4Packet::new_checked`: whether the lengths in the header hold up.
#[verifier::external_body]
fn ipv4_check(data: &[u8]) -> (checked: Result<(), smoltcp::wire::Error>)
    ensures
        checked is Ok <==> valid_ipv4(data@),
{
    Ipv4Packet::new_checked(data).map(|_p| ())
}

/// `smoltcp::wire::Ipv4Packet::next_header`: the number of the protocol inside.
#[verifier::external_body]
fn ipv4_protocol(data: &[u8]) -> (protocol: u8)
    requires
        valid_ipv4(data@),
    ensures
        protocol == data@[9],
{
    u8::from(Ipv4Packet::new_unchecked(data).next_header())
}

/// `smoltcp::wire::Ipv4Packet::src_addr`: the source address.
#[verifier::external_body]
fn ipv4_src(data: &[u8]) -> (addr: u32)
    requires
        valid_ipv4(data@),
    ensures
        addr == be(data@.subrange(12, 16)),
{
    u32::from(Ipv4Packet::new_unchecked(data).src_addr())
}

/// `smoltcp::wire::Ipv4Packet::dst_addr`: the destination address.
#[verifier::external_body]
fn ipv4_dst(data: &[u8]) -> (addr: u32)
    requires
        valid_ipv4(data@),
    ensures
        addr == be(data@.subrange(16, 20)),
{
    u32::from(Ipv4Packet::new_unchecked(data).dst_addr())
}

/// `smoltcp::wire::Ipv4Packet::payload`: what follows the header, to the end of the packet.
#[verifier::external_body]
fn ipv4_payload(data: &[u8]) -> (payload: &[u8])
    requires
        valid_ipv4(data@),
    ensures
        payload@ == data@.subrange(ipv4_header_len(data@), ipv4_total_len(data@)),
{
    Ipv4Packet::new_unchecked(data).payload()
}

/// `smoltcp::wire::Ipv6Packet::new_checked`: whether the length in the header holds up.
#[verifier::external_body]
fn ipv6_check(data: &[u8]) -> (checked: Result<(), smoltcp::wire::Error>)
    ensures
        checked is Ok <==> valid_ipv6(data@),
{
    Ipv6Packet::new_checked(data).map(|_p| ())
}

/// `smoltcp::wire::Ipv6Packet::next_header`: the number of the protocol inside.
#[verifier::external_body]
fn ipv6_protocol(data: &[u8]) -> (protocol: u8)
    requires
        valid_ipv6(data@),
    ensures
        protocol == data@[6],
{
    u8::from(Ipv6Packet::new_unchecked(data).next_header())
}

/// `smoltcp::wire::Ipv6Packet::src_addr`: the source address.
#[verifier::external_body]
fn ipv6_src(data: &[u8]) -> (addr: u128)
    requires
        valid_ipv6(data@),
    ensures
        addr == be(data@.subrange(8, 24)),
{
    u128::from(Ipv6Packet::new_unchecked(data).src_addr())
}

/// `smoltcp::wire::Ipv6Packet::dst_addr`: the destination address.
#[verifier::external_body]
fn ipv6_dst(data: &[u8]) -> (addr: u128)
    requires
        valid_ipv6(data@),
    ensures
        addr == be(data@.subrange(24, 40)),
{
    u128::from(Ipv6Packet::new_unchecked(data).dst_addr())
}

/// `smoltcp::wire::Ipv6Packet::payload`: what follows the header, to the end of the packet.
#[verifier::external_body]
fn ipv6_payload(data: &[u8]) -> (payload: &[u8])
    requires
        valid_ipv6(data@),
    ensures
        payload@ == data@.subrange(40, ipv6_total_len(data@)),
{
    Ipv6Packet::new_unchecked(data).payload()
}

/// The protocols that the stack tells apart.
#[derive(Debug, Clone, Copy, PartialEq, Eq, Structural)]
pub enum IpProtocol {
    Icmp,
    Tcp,
    Udp,
    Icmpv6,
    Unknown(u8),
}

impl IpProtocol {
    /// The protocol of a number.
    pub open spec fn of(number: u8) -> IpProtocol {
        if number == 1 {
            IpProtocol::Icmp
        } else if number == 6 {
            IpProtocol::Tcp
        } else if number == 17 {
            IpProtocol::Udp
        } else if number == 58 {
            IpProtocol::Icmpv6
        } else {
            IpProtocol::Unknown(number)
        }
    }

    fn from_u8(number: u8) -> (protocol: IpProtocol)
        ensures
            protocol == IpProtocol::of(number),
    {
        match number {
            1 => IpProtocol::Icmp,
            6 => IpProtocol::Tcp,
            17 => IpProtocol::Udp,
            58 => IpProtocol::Icmpv6,
            _ => IpProtocol::Unknown(number),
        }
    }
}

/// What a packet says, as a value.
pub struct PacketModel {
    pub protocol: IpProtocol,
    pub src: IpAddr,
    pub dst: IpAddr,
    pub payload: Seq<u8>,
}

/// What the bytes of a packet say, where they hold up.
pub open spec fn packet_model(data: Seq<u8>) -> Option<PacketModel> {
    match claimed_version(data) {
        Some(4) if valid_ipv4(data) => Some(
            PacketModel {
                protocol: IpProtocol::of(data[9]),
                src: IpAddr::V4(be(data.subrange(12, 16)) as u32),
                dst: IpAddr::V4(be(data.subrange(16, 20)) as u32),
                payload: data.subrange(ipv4_header_len(data), ipv4_total_len(data)),
            },
        ),
        Some(6) if valid_ipv6(data) => Some(
            PacketModel {
                protocol: IpProtocol::of(data[6]),
                src: IpAddr::V6(be(data.subrange(8, 24)) as u128),
                dst: IpAddr::V6(be(data.subrange(24, 40)) as u128),
                payload: data.subrange(40, ipv6_total_len(data)),
            },
        ),
        _ => None,
    }
}

/// A packet whose lengths were checked.
pub enum IpPacket<'a> {
    Ipv4(&'a [u8]),
    Ipv6(&'a [u8]),
}

/// The bytes do not make an IP packet.
#[derive(Debug, Clone, Copy, PartialEq, Eq, Structural)]
pub struct MalformedPacket;

impl<'a> IpPacket<'a> {
    /// The bytes of the packet.
    pub open spec fn bytes(self) -> Seq<u8> {
        match self {
            IpPacket::Ipv4(data) => data@,
            IpPacket::Ipv6(data) => data@,
        }
    }

    /// The lengths hold up, and the version is that of the first byte.
    pub open spec fn wf(self) -> bool {
        match self {
            IpPacket::Ipv4(data) => claimed_version(data@) == Some(4u8) && valid_ipv4(data@),
            IpPacket::Ipv6(data) => claimed_version(data@) == Some(6u8) && valid_ipv6(data@),
        }
    }

    /// What the packet says.
    pub open spec fn model(self) -> PacketModel {
        packet_model(self.bytes()).unwrap()
    }

    /// Checks the lengths of a packet.
    pub fn new_checked(pkt: &'a [u8]) -> (packet: Result<IpPacket<'a>, MalformedPacket>)
        requires
            pkt@.len() > 0,
        ensures
            packet is Ok <==> packet_model(pkt@) is Some,
            packet matches Ok(p) ==> p.wf() && p.bytes() == pkt@,
    {
        match version_of(pkt) {
            Ok(4) => match ipv4_check(pkt) {
                Ok(()) => Ok(IpPacket::Ipv4(pkt)),
                Err(_) => Err(MalformedPacket),
            },
            Ok(6) => match ipv6_check(pkt) {
                Ok(()) => Ok(IpPacket::Ipv6(pkt)),
                Err(_) => Err(MalformedPacket),
            },
            _ => Err(MalformedPacket),
        }
    }

    /// The protocol inside.
    pub fn protocol(&self) -> (protocol: IpProtocol)
        requires
            self.wf(),
        ensures
            protocol == self.model().protocol,
    {
        match self {
            IpPacket::Ipv4(data) => IpProtocol::from_u8(ipv4_protocol(data)),
            IpPacket::Ipv6(data) => IpProtocol::from_u8(ipv6_protocol(data)),
        }
    }

    /// The source address.
    pub fn src_addr(&self) -> (addr: IpAddr)
        requires
            self.wf(),
        ensures
            addr == self.model().src,
    {
        match self {
            IpPacket::Ipv4(data) => IpAddr::V4(ipv4_src(data)),
            IpPacket::Ipv6(data) => IpAddr::V6(ipv6_src(data)),
        }
    }

    /// The destination address.
    pub fn dst_addr(&self) -> (addr: IpAddr)
        requires
            self.wf(),
        ensures
            addr == self.model().dst,
    {
        match self {
            IpPacket::Ipv4(data) => IpAddr::V4(ipv4_dst(data)),
            IpPacket::Ipv6(data) => IpAddr::V6(ipv6_dst(data)),
        }
    }

    /// What the packet carries.
    pub fn payload(&self) -> (payload: &'a [u8])
        requires
            self.wf(),
        ensures
            payload@ == self.model().payload,
    {
        match self {
            IpPacket::Ipv4(data) => ipv4_payload(data),
            IpPacket::Ipv6(data) => ipv6_payload(data),
        }
    }
}

/// The number of a protocol settles which one it is: 1 and 58 are the two versions of ICMP, 6 is
/// TCP, 17 is UDP, and any other is told apart by its number only.
pub proof fn law_protocol_numbers(number: u8)
    ensures
        IpProtocol::of(number) is Icmp <==> number == 1,
        IpProtocol::of(number) is Tcp <==> number == 6,
        IpProtocol::of(number) is Udp <==> number == 17,
        IpProtocol::of(number) is Icmpv6 <==> number == 58,
        IpProtocol::of(number) matches IpProtocol::Unknown(n) ==> n == number,
{
}

/// A packet of version 4 is read whenever its lengths hold up, whatever else its header says: the
/// protocol is the tenth byte, the addresses follow the twelfth, and what is carried starts behind
/// as many words of four bytes as the first byte says and ends where the length does.
pub proof fn law_ipv4_packets_are_read(data: Seq<u8>)
    requires
        20 <= data.len(),
        data[0] / 16 == 4,
        4 * (data[0] % 16) <= data[2] * 256 + data[3] <= data.len(),
    ensures
        packet_model(data) matches Some(p) && {
            &&& p.protocol == IpProtocol::of(data[9])
            &&& p.src == IpAddr::V4(be(data.subrange(12, 16)) as u32)
            &&& p.dst == IpAddr::V4(be(data.subrange(16, 20)) as u32)
            &&& p.payload == data.subrange(4 * (data[0] % 16), data[2] * 256 + data[3])
        },
{
    lemma_be2(data.subrange(2, 4));
}

/// A packet of version 6 is read whenever its length holds up, whatever else its header says: the
/// protocol is the seventh byte, the addresses follow the eighth, and what is carried starts behind
/// forty bytes and is as long as the length says.
pub proof fn law_ipv6_packets_are_read(data: Seq<u8>)
    requires
        40 <= data.len(),
        data[0] / 16 == 6,
        40 + data[4] * 256 + data[5] <= data.len(),
    ensures
        packet_model(data) matches Some(p) && {
            &&& p.protocol == IpProtocol::of(data[6])
            &&& p.src == IpAddr::V6(be(data.subrange(8, 24)) as u128)
            &&& p.dst == IpAddr::V6(be(data.subrange(24, 40)) as u128)
            &&& p.payload == data.subrange(40, 40 + data[4] * 256 + data[5])
        },
{
    lemma_be2(data.subrange(4, 6));
}

/// Nothing else is a packet: not what claims another version, nor what is shorter than its header
/// or its length says, nor a length that does not cover the header.
pub proof fn law_nothing_else_is_a_packet(data: Seq<u8>)
    requires
        data.len() > 0,
        data[0] / 16 == 4 ==> data.len() < 20 || data[2] * 256 + data[3] > data.len() || data[2]
            * 256 + data[3] < 4 * (data[0] % 16),
        data[0] / 16 == 6 ==> data.len() < 40 || 40 + data[4] * 256 + data[5] > data.len(),
    ensures
        packet_model(data) is None,
{
    if data.len() >= 20 {
        lemma_be2(data.subrange(2, 4));
    }
    if data.len() >= 40 {
        lemma_be2(data.subrange(4, 6));
    }
}

} // verus!
