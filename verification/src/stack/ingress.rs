//! What becomes of the TCP packets that come out of the tunnel.

use crate::addr::{IpAddr, SocketAddr};
use crate::stack::ip::{
    law_ipv4_packets_are_read, law_ipv6_packets_are_read, packet_model, IpPacket, IpProtocol,
};
use crate::stack::socket::{
    listening_socket, socket_model, socket_settings, SocketModel, SocketSettings, TcpState,
    TCP_TIMEOUT_SECS,
};
use crate::stack::tcp::{
    ControlModel, Manner, TcpSocketControl, TcpSocketState, DEFAULT_TCP_RECV_BUFFER_SIZE,
    DEFAULT_TCP_SEND_BUFFER_SIZE,
};
use crate::wire::{be, lemma_be2};
use smoltcp::socket::tcp::Socket;
use smoltcp::wire::TcpPacket;
use vstd::prelude::*;

verus! {

/// Whether there is as much of a TCP header as telling the segments apart takes.
pub open spec fn readable_tcp(tcp: Seq<u8>) -> bool {
    14 <= tcp.len()
}

/// Whether the segment asks for a connection.
pub open spec fn has_syn(tcp: Seq<u8>) -> bool {
    tcp[13] / 2 % 2 == 1
}

/// Whether the segment acknowledges something.
pub open spec fn has_ack(tcp: Seq<u8>) -> bool {
    tcp[13] / 16 % 2 == 1
}

/// Whether the segment is the first of a connection.
pub open spec fn opens_connection(tcp: Seq<u8>) -> bool {
    has_syn(tcp) && !has_ack(tcp)
}

/// `smoltcp::wire::TcpPacket::syn`: the bit that asks for a connection.
#[verifier::external_body]
fn tcp_syn(tcp: &[u8]) -> (syn: bool)
    requires
        readable_tcp(tcp@),
    ensures
        syn == has_syn(tcp@),
{
    TcpPacket::new_unchecked(tcp).syn()
}

/// `smoltcp::wire::TcpPacket::ack`: the bit that acknowledges.
#[verifier::external_body]
fn tcp_ack(tcp: &[u8]) -> (ack: bool)
    requires
        readable_tcp(tcp@),
    ensures
        ack == has_ack(tcp@),
{
    TcpPacket::new_unchecked(tcp).ack()
}

/// `smoltcp::wire::TcpPacket::src_port`: the source port.
#[verifier::external_body]
fn tcp_src_port(tcp: &[u8]) -> (port: u16)
    requires
        readable_tcp(tcp@),
    ensures
        port == be(tcp@.subrange(0, 2)),
{
    TcpPacket::new_unchecked(tcp).src_port()
}

/// `smoltcp::wire::TcpPacket::dst_port`: the destination port.
#[verifier::external_body]
fn tcp_dst_port(tcp: &[u8]) -> (port: u16)
    requires
        readable_tcp(tcp@),
    ensures
        port == be(tcp@.subrange(2, 4)),
{
    TcpPacket::new_unchecked(tcp).dst_port()
}

/// Whether a segment is the first of a connection.
pub fn is_first_segment(tcp: &[u8]) -> (first: bool)
    requires
        readable_tcp(tcp@),
    ensures
        first == opens_connection(tcp@),
{
    tcp_syn(tcp) && !tcp_ack(tcp)
}

/// A connection that is to enter the stack.
#[verifier::reject_recursive_types(W)]
pub struct TcpSocketCreation<W> {
    pub control: TcpSocketControl<W>,
    pub socket: Socket<'static>,
    pub src_addr: SocketAddr,
    pub dst_addr: SocketAddr,
}

/// A connection on which nothing has happened yet.
pub open spec fn fresh_control<W>(manner: Manner) -> ControlModel<W> {
    ControlModel {
        manner,
        send: Seq::empty(),
        send_capacity: DEFAULT_TCP_SEND_BUFFER_SIZE as nat,
        send_waker: None,
        send_state: TcpSocketState::Normal,
        recv: Seq::empty(),
        recv_capacity: DEFAULT_TCP_RECV_BUFFER_SIZE as nat,
        recv_waker: None,
        recv_state: TcpSocketState::Normal,
    }
}

/// A socket that waits for its connection.
pub open spec fn fresh_socket() -> SocketModel {
    SocketModel {
        state: TcpState::Listen,
        received: Seq::empty(),
        unsent: Seq::empty(),
        send_capacity: DEFAULT_TCP_SEND_BUFFER_SIZE as nat,
    }
}

/// What becomes of a packet.
#[verifier::reject_recursive_types(W)]
pub enum Ingress<W> {
    /// Nothing: it is no TCP packet, or asks for a connection to port zero.
    Dropped,
    /// It goes to the stack, which knows the connection or answers that there is none.
    Forward(Vec<u8>),
    /// It goes to the stack after the connection it asks for.
    Open(TcpSocketCreation<W>, Vec<u8>),
}

/// What is to become of a packet, as a value.
pub enum Verdict {
    Dropped,
    Forward,
    Open { src: SocketAddr, dst: SocketAddr },
}

/// What is to become of a packet.
pub open spec fn verdict(frame: Seq<u8>) -> Verdict {
    match packet_model(frame) {
        Some(p) if p.protocol is Tcp => if opens_connection(p.payload) {
            let src = SocketAddr { ip: p.src, port: be(p.payload.subrange(0, 2)) as u16 };
            let dst = SocketAddr { ip: p.dst, port: be(p.payload.subrange(2, 4)) as u16 };
            if dst.port == 0 {
                Verdict::Dropped
            } else {
                Verdict::Open { src, dst }
            }
        } else {
            Verdict::Forward
        },
        _ => Verdict::Dropped,
    }
}

/// Whether a packet can be told apart, and is no segment with too short a header.
pub open spec fn readable(frame: Seq<u8>) -> bool {
    &&& frame.len() > 0
    &&& packet_model(frame) matches Some(p) ==> p.protocol is Tcp ==> readable_tcp(p.payload)
}

/// Whether a packet can be told apart, and is no segment with too short a header.
pub fn is_readable(frame: &[u8]) -> (yes: bool)
    ensures
        yes == readable(frame@),
{
    if frame.len() == 0 {
        return false;
    }
    match IpPacket::new_checked(frame) {
        Ok(packet) => packet.protocol() != IpProtocol::Tcp || packet.payload().len() >= 14,
        Err(_) => true,
    }
}

/// Sorts the packets that come out of the tunnel.
pub struct TcpPacketHandle {
    keep_alive: u64,
}

impl TcpPacketHandle {
    /// The interval at which idle connections are probed, in seconds.
    pub closed spec fn keep_alive(&self) -> u64 {
        self.keep_alive
    }

    /// Connections are to be probed every `keep_alive` seconds.
    pub fn new(keep_alive: u64) -> (handle: Self)
        ensures
            handle.keep_alive() == keep_alive,
    {
        TcpPacketHandle { keep_alive }
    }

    /// Decides what becomes of a packet, and makes the connection that it asks for.
    pub fn handle_packet<W>(&self, frame: Vec<u8>) -> (ingress: Ingress<W>)
        requires
            self.keep_alive() * 1_000_000 <= u64::MAX,
            readable(frame@),
        ensures
            match verdict(frame@) {
                Verdict::Dropped => ingress is Dropped,
                Verdict::Forward => ingress matches Ingress::Forward(f) && f@ == frame@,
                Verdict::Open { src, dst } => {
                    &&& ingress matches Ingress::Open(creation, f)
                    &&& f@ == frame@
                    &&& creation.src_addr == src
                    &&& creation.dst_addr == dst
                    &&& creation.control@ == fresh_control::<W>(Manner::Shared)
                    &&& socket_model(creation.socket) == fresh_socket()
                    &&& socket_settings(creation.socket) == (SocketSettings {
                        endpoint: Some(dst),
                        keep_alive: Some((self.keep_alive() * 1_000_000) as nat),
                        timeout: Some((TCP_TIMEOUT_SECS * 1_000_000) as nat),
                        cubic: true,
                    })
                },
            },
    {
        let ip = match IpPacket::new_checked(frame.as_slice()) {
            Ok(ip) => ip,
            Err(_) => return Ingress::Dropped,
        };
        let s_addr = ip.src_addr();
        let d_addr = ip.dst_addr();
        if ip.protocol() != IpProtocol::Tcp {
            return Ingress::Dropped;
        }
        let tcp = ip.payload();
        if is_first_segment(tcp) {
            let src_addr = SocketAddr { ip: s_addr, port: tcp_src_port(tcp) };
            let dst_addr = SocketAddr { ip: d_addr, port: tcp_dst_port(tcp) };
            return match listening_socket(
                DEFAULT_TCP_RECV_BUFFER_SIZE as usize,
                DEFAULT_TCP_SEND_BUFFER_SIZE as usize,
                Some(self.keep_alive),
                dst_addr,
            ) {
                None => Ingress::Dropped,
                Some(socket) => {
                    let control = TcpSocketControl::new(
                        Manner::Shared,
                        DEFAULT_TCP_SEND_BUFFER_SIZE as usize,
                        DEFAULT_TCP_RECV_BUFFER_SIZE as usize,
                    );
                    Ingress::Open(
                        TcpSocketCreation { control, socket, src_addr, dst_addr },
                        frame,
                    )
                },
            };
        }
        Ingress::Forward(frame)
    }
}

/// What becomes of a segment that stands between two places of a packet goes by its own bytes: a
/// first segment, with the second bit of its flags and without the fifth, opens a connection
/// between the ports in front of it, unless it is for port zero; and every other segment goes on.
pub open spec fn sorted_by_its_bytes(frame: Seq<u8>, at: int, src: IpAddr, dst: IpAddr) -> bool {
    let flags = frame[at + 13];
    let first = flags / 2 % 2 == 1 && flags / 16 % 2 == 0;
    let port = frame[at + 2] * 256 + frame[at + 3];
    match verdict(frame) {
        Verdict::Forward => !first,
        Verdict::Dropped => first && port == 0,
        Verdict::Open { src: from, dst: to } => {
            &&& first && port != 0
            &&& from.ip == src && from.port == frame[at] * 256 + frame[at + 1]
            &&& to.ip == dst && to.port == port
        },
    }
}

/// Every segment in a packet of version 4 is sorted by its own bytes only: whatever its other
/// flags, and whatever the packet around it says besides.
pub proof fn law_segments_in_ipv4_are_sorted(frame: Seq<u8>, at: int, end: int)
    requires
        20 <= frame.len(),
        frame[0] / 16 == 4,
        at == 4 * (frame[0] % 16),
        end == frame[2] * 256 + frame[3],
        frame[9] == 6,
        at + 14 <= end <= frame.len(),
    ensures
        readable(frame),
        sorted_by_its_bytes(
            frame,
            at,
            IpAddr::V4(be(frame.subrange(12, 16)) as u32),
            IpAddr::V4(be(frame.subrange(16, 20)) as u32),
        ),
{
    law_ipv4_packets_are_read(frame);
    let tcp = frame.subrange(at, end);
    lemma_be2(tcp.subrange(0, 2));
    lemma_be2(tcp.subrange(2, 4));
}

/// Every segment in a packet of version 6 is sorted by its own bytes only.
pub proof fn law_segments_in_ipv6_are_sorted(frame: Seq<u8>, end: int)
    requires
        40 <= frame.len(),
        frame[0] / 16 == 6,
        end == 40 + frame[4] * 256 + frame[5],
        frame[6] == 6,
        54 <= end <= frame.len(),
    ensures
        readable(frame),
        sorted_by_its_bytes(
            frame,
            40,
            IpAddr::V6(be(frame.subrange(8, 24)) as u128),
            IpAddr::V6(be(frame.subrange(24, 40)) as u128),
        ),
{
    law_ipv6_packets_are_read(frame);
    let tcp = frame.subrange(40, end);
    lemma_be2(tcp.subrange(0, 2));
    lemma_be2(tcp.subrange(2, 4));
}

/// A packet of another protocol is dropped, and so is what is no packet.
pub proof fn law_other_packets_are_dropped(frame: Seq<u8>)
    requires
        frame.len() > 0,
        frame[0] / 16 == 4 && frame.len() >= 20 ==> frame[9] != 6,
        frame[0] / 16 == 6 && frame.len() >= 40 ==> frame[6] != 6,
    ensures
        readable(frame),
        verdict(frame) is Dropped,
{
}

/// A segment whose header ends before its flags is the only packet that cannot be told apart.
pub proof fn law_cut_segments_are_unreadable(frame: Seq<u8>, at: int, end: int)
    requires
        frame[0] / 16 == 4 && 20 <= frame.len() && at == 4 * (frame[0] % 16) && end == frame[2]
            * 256 + frame[3] && frame[9] == 6 || frame[0] / 16 == 6 && 40 <= frame.len() && at == 40
            && end == 40 + frame[4] * 256 + frame[5] && frame[6] == 6,
        at <= end <= frame.len(),
        end < at + 14,
    ensures
        !readable(frame),
{
    if frame[0] / 16 == 4 {
        law_ipv4_packets_are_read(frame);
    } else {
        law_ipv6_packets_are_read(frame);
    }
}

/// A connection starts with nothing written and nothing received, with both halves in use, nobody
/// waiting and 128 KiB for each way, and its socket waits for the peer.
pub proof fn law_connections_start_empty<W>(manner: Manner)
    ensures
        ({
            let c = fresh_control::<W>(manner);
            let s = fresh_socket();
            &&& c.manner == manner
            &&& c.send.len() == 0 && c.recv.len() == 0
            &&& c.send_state is Normal && c.recv_state is Normal
            &&& c.send_waker is None && c.recv_waker is None
            &&& c.send_capacity == 128 * 1024 && c.recv_capacity == 128 * 1024
            &&& s.state is Listen
            &&& s.received.len() == 0 && s.unsent.len() == 0
            &&& s.send_capacity == 128 * 1024
        }),
{
}

} // verus!
