//! UDP datagrams in and out of IP packets.

use crate::addr::{IpAddr, SocketAddr};
use crate::stack::ip::{
    ipv4_header_len, ipv4_total_len, ipv6_total_len, law_ipv4_packets_are_read,
    law_ipv6_packets_are_read, packet_model, IpPacket, IpProtocol,
};
use crate::wire::{
    be, be128, be16, be32, law_be128_reads_back, law_be16_reads_back, law_be32_reads_back,
    lemma_be2, read_be16,
};
use etherparse::err::packet::BuildWriteError;
use etherparse::PacketBuilder;
use vstd::prelude::*;

verus! {

#[verifier::external_type_specification]
#[verifier::external_body]
pub struct ExBuildWriteError(etherparse::err::packet::BuildWriteError);

/// A datagram: what it carries, where it comes from, where it goes.
pub type UdpPacket = (Vec<u8>, SocketAddr, SocketAddr);

/// The time to live of the packets that go back into the tunnel.
pub const UDP_TTL: u8 = 20;

/// A datagram as a value.
pub struct DatagramModel {
    pub payload: Seq<u8>,
    pub src: SocketAddr,
    pub dst: SocketAddr,
}

/// The value of a datagram.
pub open spec fn datagram(packet: UdpPacket) -> DatagramModel {
    DatagramModel { payload: packet.0@, src: packet.1, dst: packet.2 }
}

/// The length that a UDP header gives, its own eight bytes among them.
pub open spec fn udp_len(udp: Seq<u8>) -> int {
    be(udp.subrange(4, 6)) as int
}

/// Whether there is a whole UDP header, and its length fits the bytes that are there.
pub open spec fn valid_udp(udp: Seq<u8>) -> bool {
    &&& 8 <= udp.len()
    &&& 8 <= udp_len(udp) <= udp.len()
}

/// The datagram in an IP packet, where it is one.
pub open spec fn decoded(data: Seq<u8>) -> Option<DatagramModel> {
    match packet_model(data) {
        Some(p) if p.protocol is Udp => Some(
            DatagramModel {
                payload: p.payload.subrange(8, udp_len(p.payload)),
                src: SocketAddr { ip: p.src, port: be(p.payload.subrange(0, 2)) as u16 },
                dst: SocketAddr { ip: p.dst, port: be(p.payload.subrange(2, 4)) as u16 },
            },
        ),
        _ => None,
    }
}

/// `smoltcp::wire::UdpPacket::src_port`: the source port.
#[verifier::external_body]
fn udp_src_port(udp: &[u8]) -> (port: u16)
    requires
        valid_udp(udp@),
    ensures
        port == be(udp@.subrange(0, 2)),
{
    smoltcp::wire::UdpPacket::new_unchecked(udp).src_port()
}

/// `smoltcp::wire::UdpPacket::dst_port`: the destination port.
#[verifier::external_body]
fn udp_dst_port(udp: &[u8]) -> (port: u16)
    requires
        valid_udp(udp@),
    ensures
        port == be(udp@.subrange(2, 4)),
{
    smoltcp::wire::UdpPacket::new_unchecked(udp).dst_port()
}

/// `smoltcp::wire::UdpPacket::payload`: what follows the header, to the length it gives.
#[verifier::external_body]
fn udp_payload(udp: &[u8]) -> (payload: &[u8])
    requires
        valid_udp(udp@),
    ensures
        payload@ == udp@.subrange(8, udp_len(udp@)),
{
    smoltcp::wire::UdpPacket::new_unchecked(udp).payload()
}

/// The header of a UDP datagram with `n` bytes of payload, but for the checksum that ends it.
pub open spec fn udp_header(sport: u16, dport: u16, n: nat) -> Seq<u8> {
    be16(sport) + be16(dport) + be16((8 + n) as u16)
}

/// The header of an IPv4 packet around a datagram with `n` bytes of payload, up to its checksum.
pub open spec fn ipv4_header_start(ttl: u8, n: nat) -> Seq<u8> {
    seq![0x45u8, 0] + be16((28 + n) as u16) + seq![0u8, 0, 0x40, 0, ttl, 17]
}

/// The header of an IPv6 packet around a datagram with `n` bytes of payload, up to the addresses.
pub open spec fn ipv6_header_start(ttl: u8, n: nat) -> Seq<u8> {
    seq![0x60u8, 0, 0, 0] + be16((8 + n) as u16) + seq![17u8, ttl]
}

/// The IPv4 packet that carries a datagram: which bytes it is made of.
pub uninterp spec fn built_udp4(
    src: u32,
    dst: u32,
    sport: u16,
    dport: u16,
    ttl: u8,
    payload: Seq<u8>,
) -> Seq<u8>;

/// The IPv6 packet that carries a datagram: which bytes it is made of.
pub uninterp spec fn built_udp6(
    src: u128,
    dst: u128,
    sport: u16,
    dport: u16,
    ttl: u8,
    payload: Seq<u8>,
) -> Seq<u8>;

/// `etherparse::PacketBuilder`, from `ipv4` through `udp` to `write`: the IPv4 packet that
/// carries the payload. Fails exactly where the packet would be longer than its length field can
/// say. Every byte is stated but for the two checksums, at 10 and at 26.
#[verifier::external_body]
fn build_udp4(
    src: u32,
    dst: u32,
    sport: u16,
    dport: u16,
    ttl: u8,
    payload: &[u8],
) -> (built: Result<Vec<u8>, BuildWriteError>)
    ensures
        built is Ok <==> payload@.len() <= 65507,
        built matches Ok(p) ==> {
            let n = payload@.len();
            &&& p@ == built_udp4(src, dst, sport, dport, ttl, payload@)
            &&& p@.len() == 28 + n
            &&& p@.subrange(0, 10) == ipv4_header_start(ttl, n)
            &&& p@.subrange(12, 16) == be32(src)
            &&& p@.subrange(16, 20) == be32(dst)
            &&& p@.subrange(20, 26) == udp_header(sport, dport, n)
            &&& p@.skip(28) == payload@
        },
{
    let builder = PacketBuilder::ipv4(src.to_be_bytes(), dst.to_be_bytes(), ttl).udp(sport, dport);
    let mut packet = Vec::with_capacity(builder.size(payload.len()));
    builder.write(&mut packet, payload)?;
    Ok(packet)
}

/// `etherparse::PacketBuilder`, from `ipv6` through `udp` to `write`: the IPv6 packet that
/// carries the payload. Fails exactly where the payload would be longer than the length fields
/// can say. Every byte is stated but for the checksum, at 46.
#[verifier::external_body]
fn build_udp6(
    src: u128,
    dst: u128,
    sport: u16,
    dport: u16,
    ttl: u8,
    payload: &[u8],
) -> (built: Result<Vec<u8>, BuildWriteError>)
    ensures
        built is Ok <==> payload@.len() <= 65527,
        built matches Ok(p) ==> {
            let n = payload@.len();
            &&& p@ == built_udp6(src, dst, sport, dport, ttl, payload@)
            &&& p@.len() == 48 + n
            &&& p@.subrange(0, 8) == ipv6_header_start(ttl, n)
            &&& p@.subrange(8, 24) == be128(src)
            &&& p@.subrange(24, 40) == be128(dst)
            &&& p@.subrange(40, 46) == udp_header(sport, dport, n)
            &&& p@.skip(48) == payload@
        },
{
    let builder = PacketBuilder::ipv6(src.to_be_bytes(), dst.to_be_bytes(), ttl).udp(sport, dport);
    let mut packet = Vec::with_capacity(builder.size(payload.len()));
    builder.write(&mut packet, payload)?;
    Ok(packet)
}

/// Why a datagram did not become a packet.
#[derive(Debug, Clone, Copy, PartialEq, Eq, Structural)]
pub enum EncodeError {
    /// One address is of version 4 and the other of version 6.
    Unmatched,
    /// The payload is too long.
    TooLong,
}

/// The packet that carries a datagram.
pub open spec fn encoded(d: DatagramModel) -> Result<Seq<u8>, EncodeError> {
    match (d.src.ip, d.dst.ip) {
        (IpAddr::V4(src), IpAddr::V4(dst)) => if d.payload.len() <= 65507 {
            Ok(built_udp4(src, dst, d.src.port, d.dst.port, UDP_TTL, d.payload))
        } else {
            Err(EncodeError::TooLong)
        },
        (IpAddr::V6(src), IpAddr::V6(dst)) => if d.payload.len() <= 65527 {
            Ok(built_udp6(src, dst, d.src.port, d.dst.port, UDP_TTL, d.payload))
        } else {
            Err(EncodeError::TooLong)
        },
        _ => Err(EncodeError::Unmatched),
    }
}

/// Whether a packet can be told apart, and is no datagram with a broken header.
pub open spec fn readable(data: Seq<u8>) -> bool {
    &&& data.len() > 0
    &&& packet_model(data) matches Some(p) ==> p.protocol is Udp ==> valid_udp(p.payload)
}

/// Whether a packet can be told apart, and is no datagram with a broken header.
pub fn is_readable(data: &[u8]) -> (yes: bool)
    ensures
        yes == readable(data@),
{
    if data.len() == 0 {
        return false;
    }
    match IpPacket::new_checked(data) {
        Ok(packet) => {
            if packet.protocol() != IpProtocol::Udp {
                return true;
            }
            let udp = packet.payload();
            let have: usize = udp.len();
            if have < 8 {
                return false;
            }
            let len: u16 = read_be16(udp[4], udp[5]);
            proof {
                assert(udp@.subrange(4, 6) =~= seq![udp@[4], udp@[5]]);
            }
            8 <= len && len as usize <= have
        },
        Err(_) => true,
    }
}

/// Reads the datagram in an IP packet. Packets that are malformed or carry something else are
/// passed over.
pub fn decode(data: &[u8]) -> (packet: Option<UdpPacket>)
    requires
        readable(data@),
    ensures
        packet is Some <==> decoded(data@) is Some,
        packet matches Some(p) ==> decoded(data@) == Some(datagram(p)),
{
    let packet = match IpPacket::new_checked(data) {
        Ok(packet) => packet,
        Err(_) => return None,
    };
    let s_addr = packet.src_addr();
    let d_addr = packet.dst_addr();
    if packet.protocol() != IpProtocol::Udp {
        return None;
    }
    let udp = packet.payload();
    let src = SocketAddr { ip: s_addr, port: udp_src_port(udp) };
    let dst = SocketAddr { ip: d_addr, port: udp_dst_port(udp) };
    let mut payload: Vec<u8> = Vec::new();
    let carried = udp_payload(udp);
    payload.extend_from_slice(carried);
    proof {
        assert(payload@ =~= carried@);
    }
    Some((payload, src, dst))
}

/// Builds the packet that carries a datagram. What it makes of a datagram, `decode` reads back.
pub fn encode(item: &UdpPacket) -> (packet: Result<Vec<u8>, EncodeError>)
    ensures
        match (packet, encoded(datagram(*item))) {
            (Ok(p), Ok(bytes)) => p@ == bytes && readable(p@) && decoded(p@) == Some(
                datagram(*item),
            ),
            (Err(e), Err(error)) => e == error,
            _ => false,
        },
{
    let sport: u16 = item.1.port;
    let dport: u16 = item.2.port;
    match (item.1.ip, item.2.ip) {
        (IpAddr::V4(src), IpAddr::V4(dst)) => match build_udp4(
            src,
            dst,
            sport,
            dport,
            UDP_TTL,
            item.0.as_slice(),
        ) {
            Ok(packet) => {
                proof {
                    lemma_udp4_reads_back(packet@, src, dst, sport, dport, UDP_TTL, item.0@);
                }
                Ok(packet)
            },
            Err(_) => Err(EncodeError::TooLong),
        },
        (IpAddr::V6(src), IpAddr::V6(dst)) => match build_udp6(
            src,
            dst,
            sport,
            dport,
            UDP_TTL,
            item.0.as_slice(),
        ) {
            Ok(packet) => {
                proof {
                    lemma_udp6_reads_back(packet@, src, dst, sport, dport, UDP_TTL, item.0@);
                }
                Ok(packet)
            },
            Err(_) => Err(EncodeError::TooLong),
        },
        _ => Err(EncodeError::Unmatched),
    }
}

/// A UDP header gives back the ports and the length that it was made from.
proof fn lemma_udp_header_reads_back(udp: Seq<u8>, sport: u16, dport: u16, payload: Seq<u8>)
    requires
        udp.len() == 8 + payload.len(),
        udp.len() <= 65535,
        udp.subrange(0, 6) == udp_header(sport, dport, payload.len()),
        udp.skip(8) == payload,
    ensures
        valid_udp(udp),
        be(udp.subrange(0, 2)) == sport,
        be(udp.subrange(2, 4)) == dport,
        udp.subrange(8, udp_len(udp)) == payload,
{
    let h = udp_header(sport, dport, payload.len());
    let len = (8 + payload.len()) as u16;
    assert(udp.subrange(0, 2) =~= h.subrange(0, 2));
    assert(udp.subrange(2, 4) =~= h.subrange(2, 4));
    assert(udp.subrange(4, 6) =~= h.subrange(4, 6));
    assert(h.subrange(0, 2) =~= be16(sport));
    assert(h.subrange(2, 4) =~= be16(dport));
    assert(h.subrange(4, 6) =~= be16(len));
    law_be16_reads_back(sport);
    law_be16_reads_back(dport);
    law_be16_reads_back(len);
    assert(udp.subrange(8, udp_len(udp)) =~= udp.skip(8));
}

/// An IPv4 packet laid out around a datagram is read back as that datagram.
proof fn lemma_udp4_reads_back(
    p: Seq<u8>,
    src: u32,
    dst: u32,
    sport: u16,
    dport: u16,
    ttl: u8,
    payload: Seq<u8>,
)
    requires
        payload.len() <= 65507,
        p.len() == 28 + payload.len(),
        p.subrange(0, 10) == ipv4_header_start(ttl, payload.len()),
        p.subrange(12, 16) == be32(src),
        p.subrange(16, 20) == be32(dst),
        p.subrange(20, 26) == udp_header(sport, dport, payload.len()),
        p.skip(28) == payload,
    ensures
        decoded(p) == Some(
            DatagramModel {
                payload,
                src: SocketAddr { ip: IpAddr::V4(src), port: sport },
                dst: SocketAddr { ip: IpAddr::V4(dst), port: dport },
            },
        ),
        valid_udp(packet_model(p).unwrap().payload),
{
    let h = ipv4_header_start(ttl, payload.len());
    let len = (28 + payload.len()) as u16;
    assert(p[0] == p.subrange(0, 10)[0] && p[9] == p.subrange(0, 10)[9]);
    assert(h[0] == 0x45 && h[9] == 17);
    assert(p.subrange(2, 4) =~= p.subrange(0, 10).subrange(2, 4));
    assert(h.subrange(2, 4) =~= be16(len));
    law_be16_reads_back(len);
    law_be32_reads_back(src);
    law_be32_reads_back(dst);
    assert(ipv4_header_len(p) == 20);
    assert(ipv4_total_len(p) == p.len());
    let udp = p.subrange(20, p.len() as int);
    assert(udp.subrange(0, 6) =~= p.subrange(20, 26));
    assert(udp.skip(8) =~= p.skip(28));
    lemma_udp_header_reads_back(udp, sport, dport, payload);
}

/// An IPv6 packet laid out around a datagram is read back as that datagram.
proof fn lemma_udp6_reads_back(
    p: Seq<u8>,
    src: u128,
    dst: u128,
    sport: u16,
    dport: u16,
    ttl: u8,
    payload: Seq<u8>,
)
    requires
        payload.len() <= 65527,
        p.len() == 48 + payload.len(),
        p.subrange(0, 8) == ipv6_header_start(ttl, payload.len()),
        p.subrange(8, 24) == be128(src),
        p.subrange(24, 40) == be128(dst),
        p.subrange(40, 46) == udp_header(sport, dport, payload.len()),
        p.skip(48) == payload,
    ensures
        decoded(p) == Some(
            DatagramModel {
                payload,
                src: SocketAddr { ip: IpAddr::V6(src), port: sport },
                dst: SocketAddr { ip: IpAddr::V6(dst), port: dport },
            },
        ),
        valid_udp(packet_model(p).unwrap().payload),
{
    let h = ipv6_header_start(ttl, payload.len());
    let len = (8 + payload.len()) as u16;
    assert(p[0] == p.subrange(0, 8)[0] && p[6] == p.subrange(0, 8)[6]);
    assert(h[0] == 0x60 && h[6] == 17);
    assert(p.subrange(4, 6) =~= p.subrange(0, 8).subrange(4, 6));
    assert(h.subrange(4, 6) =~= be16(len));
    law_be16_reads_back(len);
    law_be128_reads_back(src);
    law_be128_reads_back(dst);
    assert(ipv6_total_len(p) == p.len());
    let udp = p.subrange(40, p.len() as int);
    assert(udp.subrange(0, 6) =~= p.subrange(40, 46));
    assert(udp.skip(8) =~= p.skip(48));
    lemma_udp_header_reads_back(udp, sport, dport, payload);
}

/// Every datagram in a packet of version 4 is read, whatever the packet's identification, flags,
/// options and time to live: the ports stand in front of the UDP header, and what is carried
/// follows its eight bytes, as long as it says.
pub proof fn law_datagrams_in_ipv4_are_read(data: Seq<u8>, at: int, end: int, len: int)
    requires
        20 <= data.len(),
        data[0] / 16 == 4,
        at == 4 * (data[0] % 16),
        end == data[2] * 256 + data[3],
        data[9] == 17,
        at + 8 <= end <= data.len(),
        len == data[at + 4] * 256 + data[at + 5],
        8 <= len <= end - at,
    ensures
        readable(data),
        decoded(data) matches Some(d) && {
            &&& d.payload == data.subrange(at + 8, at + len)
            &&& d.src.ip == IpAddr::V4(be(data.subrange(12, 16)) as u32)
            &&& d.dst.ip == IpAddr::V4(be(data.subrange(16, 20)) as u32)
            &&& d.src.port == data[at] * 256 + data[at + 1]
            &&& d.dst.port == data[at + 2] * 256 + data[at + 3]
        },
{
    law_ipv4_packets_are_read(data);
    lemma_udp_fields(data, at, end);
}

/// Every datagram in a packet of version 6 is read, whatever the packet's class, label and hop
/// limit.
pub proof fn law_datagrams_in_ipv6_are_read(data: Seq<u8>, end: int, len: int)
    requires
        40 <= data.len(),
        data[0] / 16 == 6,
        end == 40 + data[4] * 256 + data[5],
        data[6] == 17,
        48 <= end <= data.len(),
        len == data[44] * 256 + data[45],
        8 <= len <= end - 40,
    ensures
        readable(data),
        decoded(data) matches Some(d) && {
            &&& d.payload == data.subrange(48, 40 + len)
            &&& d.src.ip == IpAddr::V6(be(data.subrange(8, 24)) as u128)
            &&& d.dst.ip == IpAddr::V6(be(data.subrange(24, 40)) as u128)
            &&& d.src.port == data[40] * 256 + data[41]
            &&& d.dst.port == data[42] * 256 + data[43]
        },
{
    law_ipv6_packets_are_read(data);
    lemma_udp_fields(data, 40, end);
}

/// What a UDP header between two places of a packet says, byte by byte.
proof fn lemma_udp_fields(data: Seq<u8>, at: int, end: int)
    requires
        0 <= at,
        at + 8 <= end <= data.len(),
    ensures
        ({
            let udp = data.subrange(at, end);
            let len = data[at + 4] * 256 + data[at + 5];
            &&& udp_len(udp) == len
            &&& be(udp.subrange(0, 2)) == data[at] * 256 + data[at + 1]
            &&& be(udp.subrange(2, 4)) == data[at + 2] * 256 + data[at + 3]
            &&& valid_udp(udp) <==> 8 <= len <= end - at
            &&& 8 <= len <= end - at ==> udp.subrange(8, len) == data.subrange(at + 8, at + len)
        }),
{
    let udp = data.subrange(at, end);
    let len = data[at + 4] * 256 + data[at + 5];
    lemma_be2(udp.subrange(0, 2));
    lemma_be2(udp.subrange(2, 4));
    lemma_be2(udp.subrange(4, 6));
    if 8 <= len <= end - at {
        assert(udp.subrange(8, len) =~= data.subrange(at + 8, at + len));
    }
}

/// Packets that carry something else are passed over, and so is what is no packet.
pub proof fn law_other_packets_are_passed_over(data: Seq<u8>)
    requires
        data.len() > 0,
        data[0] / 16 == 4 && data.len() >= 20 ==> data[9] != 17,
        data[0] / 16 == 6 && data.len() >= 40 ==> data[6] != 17,
    ensures
        decoded(data) is None,
        readable(data),
{
}

/// A datagram with a header that is cut off, or that gives a length which is too small or more
/// than is there, is the only packet that cannot be told apart.
pub proof fn law_broken_datagrams_are_unreadable(data: Seq<u8>, at: int, end: int)
    requires
        data[0] / 16 == 4 && 20 <= data.len() && at == 4 * (data[0] % 16) && end == data[2] * 256
            + data[3] && data[9] == 17 || data[0] / 16 == 6 && 40 <= data.len() && at == 40 && end
            == 40 + data[4] * 256 + data[5] && data[6] == 17,
        at <= end <= data.len(),
        end < at + 8 || data[at + 4] * 256 + data[at + 5] < 8 || data[at + 4] * 256 + data[at + 5]
            > end - at,
    ensures
        !readable(data),
{
    if data[0] / 16 == 4 {
        law_ipv4_packets_are_read(data);
    } else {
        law_ipv6_packets_are_read(data);
    }
    if at + 8 <= end {
        lemma_udp_fields(data, at, end);
    }
}

/// Every datagram between two addresses of one version becomes a packet, unless it is longer than
/// the length fields can say; and none between two versions does. The packet goes from the
/// sender to the receiver, carries the payload as it is and lives for twenty hops.
pub proof fn law_datagrams_become_packets(d: DatagramModel)
    ensures
        match (d.src.ip, d.dst.ip) {
            (IpAddr::V4(src), IpAddr::V4(dst)) => {
                &&& encoded(d) is Ok <==> d.payload.len() + 28 <= 65535
                &&& encoded(d) matches Ok(p) ==> p == built_udp4(
                    src,
                    dst,
                    d.src.port,
                    d.dst.port,
                    20,
                    d.payload,
                )
                &&& encoded(d) matches Err(e) ==> e is TooLong
            },
            (IpAddr::V6(src), IpAddr::V6(dst)) => {
                &&& encoded(d) is Ok <==> d.payload.len() + 8 <= 65535
                &&& encoded(d) matches Ok(p) ==> p == built_udp6(
                    src,
                    dst,
                    d.src.port,
                    d.dst.port,
                    20,
                    d.payload,
                )
                &&& encoded(d) matches Err(e) ==> e is TooLong
            },
            _ => encoded(d) == Err::<Seq<u8>, EncodeError>(EncodeError::Unmatched),
        },
{
}

} // verus!
