//! The TCP sockets of the user-space stack, as far as connection servicing uses them.
//!
//! A `smoltcp` TCP socket holds two byte queues, what the peer sent and what still has to go out,
//! and a state of the TCP state machine. These are named here, and each operation is described
//! over those names.

use crate::addr::{IpAddr, SocketAddr};
use crate::stack::byte_ring::{absorb, least, release, ring_bytes, ring_capacity, ring_new, room};
use smoltcp::socket::tcp::{CongestionControl, ListenError, RecvError, SendError, Socket, State};
use smoltcp::storage::RingBuffer;
use smoltcp::time::Duration;
use smoltcp::wire::{IpAddress, Ipv4Address, Ipv6Address};
use vstd::prelude::*;

verus! {

/// A state of the TCP state machine.
#[derive(Debug, Clone, Copy, PartialEq, Eq, Structural)]
pub enum TcpState {
    Closed,
    Listen,
    SynSent,
    SynReceived,
    Established,
    FinWait1,
    FinWait2,
    CloseWait,
    Closing,
    LastAck,
    TimeWait,
}

impl TcpState {
    /// The state after the local side has closed its transmit half.
    pub open spec fn after_close(self) -> TcpState {
        match self {
            TcpState::Listen => TcpState::Closed,
            TcpState::SynSent => TcpState::Closed,
            TcpState::SynReceived => TcpState::FinWait1,
            TcpState::Established => TcpState::FinWait1,
            TcpState::CloseWait => TcpState::LastAck,
            other => other,
        }
    }

    /// Whether data can still be sent to the peer.
    pub open spec fn may_send(self) -> bool {
        self is Established || self is CloseWait
    }

    /// Whether data can still come from the peer, or some is left that came.
    pub open spec fn may_recv(self, received: Seq<u8>) -> bool {
        self is Established || self is FinWait1 || self is FinWait2 || received.len() > 0
    }
}

#[verifier::external_type_specification]
#[verifier::external_body]
pub struct ExSocket<'a>(smoltcp::socket::tcp::Socket<'a>);

#[verifier::external_type_specification]
#[verifier::external_body]
pub struct ExRecvError(smoltcp::socket::tcp::RecvError);

#[verifier::external_type_specification]
#[verifier::external_body]
pub struct ExSendError(smoltcp::socket::tcp::SendError);

/// The bytes that came from the peer and were not taken yet, oldest first.
pub uninterp spec fn socket_received(socket: Socket<'static>) -> Seq<u8>;

/// The bytes that wait in the socket to be sent or acknowledged, oldest first.
pub uninterp spec fn socket_unsent(socket: Socket<'static>) -> Seq<u8>;

/// The most bytes that can wait to be sent at a time.
pub uninterp spec fn socket_send_capacity(socket: Socket<'static>) -> nat;

/// The state of the connection.
pub uninterp spec fn socket_state(socket: Socket<'static>) -> TcpState;

#[verifier::external_type_specification]
#[verifier::external_body]
pub struct ExListenError(smoltcp::socket::tcp::ListenError);

/// The address that the socket listens on, or listened on when its connection came up.
pub uninterp spec fn socket_endpoint(socket: Socket<'static>) -> Option<SocketAddr>;

/// The interval, in microseconds, at which an idle connection is probed.
pub uninterp spec fn socket_keep_alive(socket: Socket<'static>) -> Option<nat>;

/// The time, in microseconds, after which a silent connection is given up.
pub uninterp spec fn socket_timeout(socket: Socket<'static>) -> Option<nat>;

/// Whether congestion is controlled by the Cubic algorithm.
pub uninterp spec fn socket_uses_cubic(socket: Socket<'static>) -> bool;

/// How a socket was set up, as a value.
pub struct SocketSettings {
    pub endpoint: Option<SocketAddr>,
    pub keep_alive: Option<nat>,
    pub timeout: Option<nat>,
    pub cubic: bool,
}

/// How a socket was set up.
pub open spec fn socket_settings(socket: Socket<'static>) -> SocketSettings {
    SocketSettings {
        endpoint: socket_endpoint(socket),
        keep_alive: socket_keep_alive(socket),
        timeout: socket_timeout(socket),
        cubic: socket_uses_cubic(socket),
    }
}

/// What a stack socket holds, as a value.
pub struct SocketModel {
    pub state: TcpState,
    pub received: Seq<u8>,
    pub unsent: Seq<u8>,
    pub send_capacity: nat,
}

/// The value of a stack socket.
pub open spec fn socket_model(socket: Socket<'static>) -> SocketModel {
    SocketModel {
        state: socket_state(socket),
        received: socket_received(socket),
        unsent: socket_unsent(socket),
        send_capacity: socket_send_capacity(socket),
    }
}

/// `smoltcp::socket::tcp::Socket::new`: a closed socket over two buffers. It panics where the
/// receive buffer is larger than a gibibyte. Which congestion control it starts with is not
/// stated.
#[verifier::external_body]
fn socket_new(rx: RingBuffer<'static, u8>, tx: RingBuffer<'static, u8>) -> (socket: Socket<'static>)
    requires
        ring_capacity(rx) <= 0x4000_0000,
    ensures
        socket_model(socket) == (SocketModel {
            state: TcpState::Closed,
            received: ring_bytes(rx),
            unsent: ring_bytes(tx),
            send_capacity: ring_capacity(tx),
        }),
        socket_endpoint(socket) is None,
        socket_keep_alive(socket) is None,
        socket_timeout(socket) is None,
{
    Socket::new(rx, tx)
}

/// `smoltcp::socket::tcp::Socket::set_keep_alive`, with an interval of whole seconds. The number
/// of microseconds has to fit in 64 bits.
#[verifier::external_body]
fn set_keep_alive(socket: &mut Socket<'static>, secs: u64)
    requires
        secs * 1_000_000 <= u64::MAX,
    ensures
        socket_model(*final(socket)) == socket_model(*old(socket)),
        socket_settings(*final(socket)) == (SocketSettings {
            keep_alive: Some((secs * 1_000_000) as nat),
            ..socket_settings(*old(socket))
        }),
{
    socket.set_keep_alive(Some(Duration::from_secs(secs)))
}

/// `smoltcp::socket::tcp::Socket::set_timeout`, with a time of whole seconds. The number of
/// microseconds has to fit in 64 bits.
#[verifier::external_body]
fn set_timeout(socket: &mut Socket<'static>, secs: u64)
    requires
        secs * 1_000_000 <= u64::MAX,
    ensures
        socket_model(*final(socket)) == socket_model(*old(socket)),
        socket_settings(*final(socket)) == (SocketSettings {
            timeout: Some((secs * 1_000_000) as nat),
            ..socket_settings(*old(socket))
        }),
{
    socket.set_timeout(Some(Duration::from_secs(secs)))
}

/// `smoltcp::socket::tcp::Socket::set_congestion_control`, with the Cubic algorithm.
#[verifier::external_body]
fn set_cubic(socket: &mut Socket<'static>)
    ensures
        socket_uses_cubic(*final(socket)),
        socket_model(*final(socket)) == socket_model(*old(socket)),
        socket_settings(*final(socket)) == (SocketSettings {
            cubic: true,
            ..socket_settings(*old(socket))
        }),
{
    socket.set_congestion_control(CongestionControl::Cubic)
}

/// What listening on `addr` comes to for a closed socket: it succeeds exactly where the port is
/// not zero, and then the queues are empty.
pub open spec fn listened(
    before: Socket<'static>,
    after: Socket<'static>,
    addr: SocketAddr,
    ok: bool,
) -> bool {
    &&& ok == (addr.port != 0)
    &&& socket_model(after) == (if ok {
        SocketModel {
            state: TcpState::Listen,
            received: Seq::empty(),
            unsent: Seq::empty(),
            ..socket_model(before)
        }
    } else {
        socket_model(before)
    })
    &&& socket_settings(after) == (if ok {
        SocketSettings { endpoint: Some(addr), ..socket_settings(before) }
    } else {
        socket_settings(before)
    })
}

/// `smoltcp::socket::tcp::Socket::listen`, on an IPv4 address.
#[verifier::external_body]
fn listen4(socket: &mut Socket<'static>, ip: u32, port: u16) -> (res: Result<(), ListenError>)
    requires
        socket_state(*old(socket)) is Closed,
    ensures
        listened(
            *old(socket),
            *final(socket),
            SocketAddr { ip: IpAddr::V4(ip), port },
            res is Ok,
        ),
{
    socket.listen((IpAddress::Ipv4(Ipv4Address::from(ip)), port))
}

/// `smoltcp::socket::tcp::Socket::listen`, on an IPv6 address.
#[verifier::external_body]
fn listen6(socket: &mut Socket<'static>, ip: u128, port: u16) -> (res: Result<(), ListenError>)
    requires
        socket_state(*old(socket)) is Closed,
    ensures
        listened(
            *old(socket),
            *final(socket),
            SocketAddr { ip: IpAddr::V6(ip), port },
            res is Ok,
        ),
{
    socket.listen((IpAddress::Ipv6(Ipv6Address::from(ip)), port))
}

/// The time after which a silent connection is given up, in seconds: what Linux sets by default.
pub const TCP_TIMEOUT_SECS: u64 = 7200;

/// A socket that waits for the connection to `dst`, with buffers of the given sizes. There is
/// none exactly where the port is zero. It is probed every `keep_alive` seconds where that is
/// given.
pub fn listening_socket(
    recv_buffer_size: usize,
    send_buffer_size: usize,
    keep_alive: Option<u64>,
    dst: SocketAddr,
) -> (opened: Option<Socket<'static>>)
    requires
        recv_buffer_size <= 0x4000_0000,
        keep_alive matches Some(secs) ==> secs * 1_000_000 <= u64::MAX,
    ensures
        opened is Some <==> dst.port != 0,
        opened matches Some(socket) ==> {
            &&& socket_model(socket) == (SocketModel {
                state: TcpState::Listen,
                received: Seq::empty(),
                unsent: Seq::empty(),
                send_capacity: send_buffer_size as nat,
            })
            &&& socket_settings(socket) == (SocketSettings {
                endpoint: Some(dst),
                keep_alive: match keep_alive {
                    Some(secs) => Some((secs * 1_000_000) as nat),
                    None => None,
                },
                timeout: Some((TCP_TIMEOUT_SECS * 1_000_000) as nat),
                cubic: true,
            })
        },
{
    let mut socket = socket_new(
        ring_new(vec![0u8; recv_buffer_size]),
        ring_new(vec![0u8; send_buffer_size]),
    );
    if let Some(secs) = keep_alive {
        set_keep_alive(&mut socket, secs);
    }
    set_timeout(&mut socket, TCP_TIMEOUT_SECS);
    set_cubic(&mut socket);
    let listening = match dst.ip {
        IpAddr::V4(ip) => listen4(&mut socket, ip, dst.port),
        IpAddr::V6(ip) => listen6(&mut socket, ip, dst.port),
    };
    match listening {
        Ok(()) => Some(socket),
        Err(_) => None,
    }
}

/// `smoltcp::socket::tcp::Socket::state`: the state of the connection.
#[verifier::external_body]
pub(crate) fn state(socket: &Socket<'static>) -> (s: TcpState)
    ensures
        s == socket_state(*socket),
{
    match socket.state() {
        State::Closed => TcpState::Closed,
        State::Listen => TcpState::Listen,
        State::SynSent => TcpState::SynSent,
        State::SynReceived => TcpState::SynReceived,
        State::Established => TcpState::Established,
        State::FinWait1 => TcpState::FinWait1,
        State::FinWait2 => TcpState::FinWait2,
        State::CloseWait => TcpState::CloseWait,
        State::Closing => TcpState::Closing,
        State::LastAck => TcpState::LastAck,
        State::TimeWait => TcpState::TimeWait,
    }
}

/// `smoltcp::socket::tcp::Socket::send_queue`: how many bytes wait to be sent.
#[verifier::external_body]
pub(crate) fn send_queue(socket: &Socket<'static>) -> (n: usize)
    ensures
        n == socket_unsent(*socket).len(),
{
    socket.send_queue()
}

/// `smoltcp::socket::tcp::Socket::can_recv`: whether there is something to take.
#[verifier::external_body]
pub(crate) fn can_recv(socket: &Socket<'static>) -> (can: bool)
    ensures
        can == (socket_received(*socket).len() > 0),
{
    socket.can_recv()
}

/// `smoltcp::socket::tcp::Socket::may_recv`: whether the receive half is open.
#[verifier::external_body]
pub(crate) fn may_recv(socket: &Socket<'static>) -> (may: bool)
    ensures
        may == socket_state(*socket).may_recv(socket_received(*socket)),
{
    socket.may_recv()
}

/// `smoltcp::socket::tcp::Socket::can_send`: whether the transmit half is open and has room.
#[verifier::external_body]
pub(crate) fn can_send(socket: &Socket<'static>) -> (can: bool)
    ensures
        can == (socket_state(*socket).may_send() && room(
            socket_unsent(*socket).len(),
            socket_send_capacity(*socket),
        ) > 0),
{
    socket.can_send()
}

/// `smoltcp::socket::tcp::Socket::close`: closes the transmit half; the queues stay, and so does
/// the way that the socket was set up.
#[verifier::external_body]
pub(crate) fn close(socket: &mut Socket<'static>)
    ensures
        socket_state(*final(socket)) == socket_state(*old(socket)).after_close(),
        socket_received(*final(socket)) == socket_received(*old(socket)),
        socket_unsent(*final(socket)) == socket_unsent(*old(socket)),
        socket_send_capacity(*final(socket)) == socket_send_capacity(*old(socket)),
        socket_settings(*final(socket)) == socket_settings(*old(socket)),
{
    socket.close()
}

/// `smoltcp::socket::tcp::Socket::abort`: drops the connection; the queues stay, and so does the
/// way that the socket was set up.
#[verifier::external_body]
pub(crate) fn abort(socket: &mut Socket<'static>)
    ensures
        socket_state(*final(socket)) == TcpState::Closed,
        socket_received(*final(socket)) == socket_received(*old(socket)),
        socket_unsent(*final(socket)) == socket_unsent(*old(socket)),
        socket_send_capacity(*final(socket)) == socket_send_capacity(*old(socket)),
        socket_settings(*final(socket)) == socket_settings(*old(socket)),
{
    socket.abort()
}

/// `smoltcp::socket::tcp::Socket::recv`, handing what it offers to a ring buffer: moves bytes
/// from the front of the receive queue to the end of the ring. The socket offers one contiguous
/// stretch of its queue, so how many are moved is left open but for this: some are where there
/// are some and the ring has room. Fails exactly where the receive half is closed, and then
/// changes nothing. The way that the socket was set up stays.
#[verifier::external_body]
pub(crate) fn recv_into(
    socket: &mut Socket<'static>,
    ring: &mut RingBuffer<'static, u8>,
) -> (res: Result<usize, RecvError>)
    ensures
        res is Ok <==> socket_state(*old(socket)).may_recv(socket_received(*old(socket))),
        res is Err ==> {
            &&& socket_received(*final(socket)) == socket_received(*old(socket))
            &&& ring_bytes(*final(ring)) == ring_bytes(*old(ring))
        },
        res matches Ok(n) ==> {
            let received = socket_received(*old(socket));
            let free = room(ring_bytes(*old(ring)).len(), ring_capacity(*old(ring)));
            &&& n <= least(received.len(), free)
            &&& received.len() > 0 && free > 0 ==> n > 0
            &&& socket_received(*final(socket)) == received.skip(n as int)
            &&& ring_bytes(*final(ring)) == ring_bytes(*old(ring)) + received.take(n as int)
        },
        ring_capacity(*final(ring)) == ring_capacity(*old(ring)),
        socket_state(*final(socket)) == socket_state(*old(socket)),
        socket_unsent(*final(socket)) == socket_unsent(*old(socket)),
        socket_send_capacity(*final(socket)) == socket_send_capacity(*old(socket)),
        socket_settings(*final(socket)) == socket_settings(*old(socket)),
{
    socket.recv(|chunk| absorb(ring, chunk))
}

/// `smoltcp::socket::tcp::Socket::send`, filling what it offers from a ring buffer: moves bytes
/// from the front of the ring to the end of the transmit queue. The socket offers one contiguous
/// stretch of free space, so how many are moved is left open but for this: some are where there
/// are some and the queue has room. Fails exactly where the transmit half is closed, and then
/// changes nothing. The way that the socket was set up stays.
#[verifier::external_body]
pub(crate) fn send_from(
    socket: &mut Socket<'static>,
    ring: &mut RingBuffer<'static, u8>,
) -> (res: Result<usize, SendError>)
    ensures
        res is Ok <==> socket_state(*old(socket)).may_send(),
        res is Err ==> {
            &&& socket_unsent(*final(socket)) == socket_unsent(*old(socket))
            &&& ring_bytes(*final(ring)) == ring_bytes(*old(ring))
        },
        res matches Ok(n) ==> {
            let waiting = ring_bytes(*old(ring));
            let free = room(
                socket_unsent(*old(socket)).len(),
                socket_send_capacity(*old(socket)),
            );
            &&& n <= least(waiting.len(), free)
            &&& waiting.len() > 0 && free > 0 ==> n > 0
            &&& ring_bytes(*final(ring)) == waiting.skip(n as int)
            &&& socket_unsent(*final(socket)) == socket_unsent(*old(socket)) + waiting.take(
                n as int,
            )
        },
        ring_capacity(*final(ring)) == ring_capacity(*old(ring)),
        socket_state(*final(socket)) == socket_state(*old(socket)),
        socket_received(*final(socket)) == socket_received(*old(socket)),
        socket_send_capacity(*final(socket)) == socket_send_capacity(*old(socket)),
        socket_settings(*final(socket)) == socket_settings(*old(socket)),
{
    socket.send(|chunk| release(ring, chunk))
}

} // verus!
