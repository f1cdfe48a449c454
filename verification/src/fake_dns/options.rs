//! How connections to remote resolvers are made.

use crate::addr::{IpAddr, SocketAddr};
use vstd::prelude::*;

verus! {

#[derive(Debug)]
pub struct TcpOptions {
    /// `SO_SNDBUF`
    pub send_buf_size: Option<u32>,
    /// `SO_RCVBUF`
    pub recv_buf_size: Option<u32>,
    pub nodelay: bool,
    /// `TCP_FASTOPEN`, enables TFO
    pub fastopen: bool,
}

impl Clone for TcpOptions {
    fn clone(&self) -> (opts: Self)
        ensures
            opts == *self,
    {
        TcpOptions {
            send_buf_size: self.send_buf_size,
            recv_buf_size: self.recv_buf_size,
            nodelay: self.nodelay,
            fastopen: self.fastopen,
        }
    }
}

impl Default for TcpOptions {
    /// Everything as the system sets it.
    fn default() -> (opts: Self)
        ensures
            opts == (TcpOptions {
                send_buf_size: None,
                recv_buf_size: None,
                nodelay: false,
                fastopen: false,
            }),
    {
        TcpOptions { send_buf_size: None, recv_buf_size: None, nodelay: false, fastopen: false }
    }
}

/// Options for a UDP server.
#[derive(Debug)]
pub struct UdpSocketOpts {
    /// Maximum transmission unit for a UDP socket's `recv`, with the IP and UDP headers
    pub mtu: Option<usize>,
    /// Outbound UDP sockets allow IP fragmentation
    pub allow_fragmentation: bool,
}

impl Clone for UdpSocketOpts {
    fn clone(&self) -> (opts: Self)
        ensures
            opts == *self,
    {
        UdpSocketOpts { mtu: self.mtu, allow_fragmentation: self.allow_fragmentation }
    }
}

impl Default for UdpSocketOpts {
    /// Everything as the system sets it.
    fn default() -> (opts: Self)
        ensures
            opts == (UdpSocketOpts { mtu: None, allow_fragmentation: false }),
    {
        UdpSocketOpts { mtu: None, allow_fragmentation: false }
    }
}

#[derive(Debug)]
pub struct ConnectOptions {
    /// Mark of outbound packets, where the system has one
    pub fwmark: Option<u32>,
    /// Outbound sockets bind to this address, which chooses the network interface
    pub bind_local_addr: Option<SocketAddr>,
    /// Outbound sockets bind to this interface
    pub bind_interface: Option<String>,
    pub tcp_opts: Option<TcpOptions>,
    pub udp_opts: Option<UdpSocketOpts>,
}

impl Clone for ConnectOptions {
    fn clone(&self) -> (opts: Self)
        ensures
            opts == *self,
    {
        ConnectOptions {
            fwmark: self.fwmark,
            bind_local_addr: self.bind_local_addr,
            bind_interface: match &self.bind_interface {
                Some(name) => Some(name.clone()),
                None => None,
            },
            tcp_opts: match &self.tcp_opts {
                Some(opts) => Some(opts.clone()),
                None => None,
            },
            udp_opts: match &self.udp_opts {
                Some(opts) => Some(opts.clone()),
                None => None,
            },
        }
    }
}

impl Default for ConnectOptions {
    /// Sockets bind to any address and any port.
    fn default() -> (opts: Self)
        ensures
            opts == (ConnectOptions {
                fwmark: None,
                bind_local_addr: Some(SocketAddr { ip: IpAddr::V4(0), port: 0 }),
                bind_interface: None,
                tcp_opts: None,
                udp_opts: None,
            }),
    {
        ConnectOptions {
            fwmark: None,
            bind_local_addr: Some(SocketAddr { ip: IpAddr::V4(0), port: 0 }),
            bind_interface: None,
            tcp_opts: None,
            udp_opts: None,
        }
    }
}

} // verus!
