//! TCP connections of the stack that runs on a thread of its own.

use crate::addr::SocketAddr;
use crate::stack::ingress::{
    fresh_control, fresh_socket, is_first_segment, opens_connection, readable_tcp,
};
use crate::stack::socket::{
    listening_socket, socket_model, socket_settings, SocketSettings, TCP_TIMEOUT_SECS,
};
use crate::stack::tcp::{
    Manner, TcpSocketControl, DEFAULT_TCP_RECV_BUFFER_SIZE, DEFAULT_TCP_SEND_BUFFER_SIZE,
};
use core::time::Duration;
use smoltcp::socket::tcp::Socket;
use vstd::prelude::*;

verus! {

/// Options for connecting to a TCP remote server.
#[derive(Debug, Clone)]
pub struct TcpSocketOpts {
    /// TCP socket's `SO_SNDBUF`
    pub send_buffer_size: Option<u32>,
    /// TCP socket's `SO_RCVBUF`
    pub recv_buffer_size: Option<u32>,
    /// `TCP_NODELAY`
    pub nodelay: bool,
    /// `TCP_FASTOPEN`, enables TFO
    pub fastopen: bool,
    /// `SO_KEEPALIVE` and sets `TCP_KEEPIDLE`, `TCP_KEEPINTVL` and `TCP_KEEPCNT` respectively,
    /// enables keep-alive messages on connection-oriented sockets
    pub keepalive: Option<Duration>,
    /// Multipath TCP
    pub mptcp: bool,
}

impl Default for TcpSocketOpts {
    /// Everything as the system sets it.
    fn default() -> (opts: Self)
        ensures
            opts == (TcpSocketOpts {
                send_buffer_size: None,
                recv_buffer_size: None,
                nodelay: false,
                fastopen: false,
                keepalive: None,
                mptcp: false,
            }),
    {
        TcpSocketOpts {
            send_buffer_size: None,
            recv_buffer_size: None,
            nodelay: false,
            fastopen: false,
            keepalive: None,
            mptcp: false,
        }
    }
}

/// Inbound connection options.
#[derive(Debug, Clone)]
pub struct AcceptOpts {
    /// TCP options
    pub tcp: TcpSocketOpts,
    /// Enable the `IPV6_V6ONLY` option for the socket
    pub ipv6_only: bool,
}

impl Default for AcceptOpts {
    /// Everything as the system sets it.
    fn default() -> (opts: Self)
        ensures
            opts.tcp == (TcpSocketOpts {
                send_buffer_size: None,
                recv_buffer_size: None,
                nodelay: false,
                fastopen: false,
                keepalive: None,
                mptcp: false,
            }),
            !opts.ipv6_only,
    {
        AcceptOpts { tcp: TcpSocketOpts::default(), ipv6_only: false }
    }
}

/// One connection of the stack that runs on a thread of its own.
#[verifier::reject_recursive_types(W)]
pub struct TcpIConnectInner<W> {
    pub control: TcpSocketControl<W>,
}

impl<W> TcpIConnectInner<W> {
    /// A connection on which nothing has happened yet.
    pub fn new() -> (inner: Self)
        ensures
            inner.control@ == fresh_control::<W>(Manner::Threaded),
    {
        TcpIConnectInner {
            control: TcpSocketControl::new(
                Manner::Threaded,
                DEFAULT_TCP_SEND_BUFFER_SIZE as usize,
                DEFAULT_TCP_RECV_BUFFER_SIZE as usize,
            ),
        }
    }
}

/// No connection can be awaited on port zero.
#[derive(Debug, Clone, Copy, PartialEq, Eq, Structural)]
pub struct ListenFailed;

/// Makes the connection that a segment for `dst_addr` asks for, where it asks for one.
pub fn intercept_tcp_syn<W>(dst_addr: SocketAddr, packet: &[u8]) -> (opened: Result<
    Option<(TcpIConnectInner<W>, Socket<'static>)>,
    ListenFailed,
>)
    requires
        readable_tcp(packet@),
    ensures
        match opened {
            Ok(None) => !opens_connection(packet@),
            Ok(Some((inner, socket))) => {
                &&& opens_connection(packet@)
                &&& dst_addr.port != 0
                &&& inner.control@ == fresh_control::<W>(Manner::Threaded)
                &&& socket_model(socket) == fresh_socket()
                &&& socket_settings(socket) == (SocketSettings {
                    endpoint: Some(dst_addr),
                    keep_alive: None,
                    timeout: Some((TCP_TIMEOUT_SECS * 1_000_000) as nat),
                    cubic: true,
                })
            },
            Err(_) => opens_connection(packet@) && dst_addr.port == 0,
        },
{
    if !is_first_segment(packet) {
        return Ok(None);
    }
    match listening_socket(
        DEFAULT_TCP_RECV_BUFFER_SIZE as usize,
        DEFAULT_TCP_SEND_BUFFER_SIZE as usize,
        None,
        dst_addr,
    ) {
        Some(socket) => Ok(Some((TcpIConnectInner::new(), socket))),
        None => Err(ListenFailed),
    }
}

} // verus!
