//! The server: how it is set up, and what it does with what it reads.

use crate::addr::{IpAddr, SocketAddr};
use crate::fake_dns::client_cache::DnsKey;
use crate::fake_dns::message::{decoded, encoded, server_message, ServerMessage};
use crate::fake_dns::options::ConnectOptions;
use crate::fake_dns::upstream::{
    decode, encode, frame, frame_len, framed, law_frames_say_their_length, CodecError,
};
use crate::wire::{be, lemma_be2};
use hickory_resolver::proto::op::Message;
use vstd::prelude::*;

verus! {

/// How long a question may take, in nanoseconds, where nothing else is said.
pub const DEFAULT_TIMEOUT_NANOS: u64 = 3_000_000_000;

/// How often a question is asked, where nothing else is said.
pub const DEFAULT_RETRY_TIMES: u8 = 3;

/// No remote resolver was named.
#[derive(Debug, Clone, Copy, PartialEq, Eq, Structural)]
pub struct RemoteNeeded;

/// A server that is to run: it listens at one address, and asks a remote resolver.
#[derive(Debug, Clone, Copy, PartialEq, Eq, Structural)]
pub struct ServerPlan {
    pub bind: SocketAddr,
    pub remote: SocketAddr,
}

/// What is to run.
pub struct DnsServer {
    pub udp_svr: Option<ServerPlan>,
    pub tcp_svr: Option<ServerPlan>,
    pub timeout: u64,
    pub retry_times: u8,
    pub connect_opts: ConnectOptions,
}

/// Collects how the server is to be set up.
pub struct DnsServerBuilder {
    pub udp_remote: Option<SocketAddr>,
    pub tcp_remote: Option<SocketAddr>,
    pub connect_opts: ConnectOptions,
    pub timeout: u64,
    pub retry_times: u8,
    pub svr_bind_addr: SocketAddr,
}

/// The server that listens at `bind` and asks `remote`, where there is a remote.
pub open spec fn plan(bind: SocketAddr, remote: Option<SocketAddr>) -> Option<ServerPlan> {
    match remote {
        Some(remote) => Some(ServerPlan { bind, remote }),
        None => None,
    }
}

/// The servers for datagrams and for streams that are to run, where some resolver was named.
pub open spec fn planned(
    bind: SocketAddr,
    udp_remote: Option<SocketAddr>,
    tcp_remote: Option<SocketAddr>,
) -> Option<(Option<ServerPlan>, Option<ServerPlan>)> {
    if udp_remote is Some {
        Some((plan(bind, udp_remote), plan(bind, udp_remote)))
    } else if tcp_remote is Some {
        Some((None, None))
    } else {
        None
    }
}

/// Some resolver has to be named. Both servers run exactly where one for datagrams was: both
/// listen where they are told to, and both ask that one.
pub proof fn law_both_servers_ask_the_datagram_resolver(
    bind: SocketAddr,
    udp_remote: Option<SocketAddr>,
    tcp_remote: Option<SocketAddr>,
)
    ensures
        planned(bind, udp_remote, tcp_remote) is None <==> udp_remote is None && tcp_remote is None,
        planned(bind, udp_remote, tcp_remote) matches Some((udp, tcp)) ==> {
            &&& udp == tcp
            &&& udp is Some <==> udp_remote is Some
            &&& udp matches Some(p) ==> p.bind == bind && Some(p.remote) == udp_remote
        },
{
}

impl DnsServerBuilder {
    /// A server that listens at an address, without a remote resolver.
    pub fn new(svr_bind_addr: SocketAddr) -> (builder: Self)
        ensures
            builder == (DnsServerBuilder {
                udp_remote: None,
                tcp_remote: None,
                timeout: DEFAULT_TIMEOUT_NANOS,
                retry_times: DEFAULT_RETRY_TIMES,
                connect_opts: ConnectOptions {
                    fwmark: None,
                    bind_local_addr: Some(SocketAddr { ip: IpAddr::V4(0), port: 0 }),
                    bind_interface: None,
                    tcp_opts: None,
                    udp_opts: None,
                },
                svr_bind_addr,
            }),
    {
        DnsServerBuilder {
            udp_remote: None,
            tcp_remote: None,
            timeout: DEFAULT_TIMEOUT_NANOS,
            retry_times: DEFAULT_RETRY_TIMES,
            connect_opts: ConnectOptions::default(),
            svr_bind_addr,
        }
    }

    pub fn bind_addr(&mut self, addr: SocketAddr) -> (builder: &mut Self)
        ensures
            *builder == (DnsServerBuilder { svr_bind_addr: addr, ..*old(self) }),
            *final(self) == *final(builder),
    {
        self.svr_bind_addr = addr;
        self
    }

    pub fn retry_times(&mut self, retry_times: u8) -> (builder: &mut Self)
        ensures
            *builder == (DnsServerBuilder { retry_times, ..*old(self) }),
            *final(self) == *final(builder),
    {
        self.retry_times = retry_times;
        self
    }

    pub fn timeout(&mut self, timeout: u64) -> (builder: &mut Self)
        ensures
            *builder == (DnsServerBuilder { timeout, ..*old(self) }),
            *final(self) == *final(builder),
    {
        self.timeout = timeout;
        self
    }

    pub fn connect_options(&mut self, connect_opts: ConnectOptions) -> (builder: &mut Self)
        ensures
            *builder == (DnsServerBuilder { connect_opts, ..*old(self) }),
            *final(self) == *final(builder),
    {
        self.connect_opts = connect_opts;
        self
    }

    pub fn udp_remote(&mut self, udp_remote: Option<SocketAddr>) -> (builder: &mut Self)
        ensures
            *builder == (DnsServerBuilder { udp_remote, ..*old(self) }),
            *final(self) == *final(builder),
    {
        self.udp_remote = udp_remote;
        self
    }

    pub fn tcp_remote(&mut self, tcp_remote: Option<SocketAddr>) -> (builder: &mut Self)
        ensures
            *builder == (DnsServerBuilder { tcp_remote, ..*old(self) }),
            *final(self) == *final(builder),
    {
        self.tcp_remote = tcp_remote;
        self
    }

    /// What is to run. Some remote resolver has to be named; both servers ask the one that was
    /// named for datagrams. The builder can be used again.
    pub fn build(&self) -> (server: Result<DnsServer, RemoteNeeded>)
        ensures
            match server {
                Ok(s) => {
                    &&& self.udp_remote is Some || self.tcp_remote is Some
                    &&& s == (DnsServer {
                        udp_svr: plan(self.svr_bind_addr, self.udp_remote),
                        tcp_svr: plan(self.svr_bind_addr, self.udp_remote),
                        timeout: self.timeout,
                        retry_times: self.retry_times,
                        connect_opts: self.connect_opts,
                    })
                },
                Err(_) => self.udp_remote is None && self.tcp_remote is None,
            },
            planned(self.svr_bind_addr, self.udp_remote, self.tcp_remote) == (match server {
                Ok(s) => Some((s.udp_svr, s.tcp_svr)),
                Err(_) => None,
            }),
    {
        if self.udp_remote.is_none() && self.tcp_remote.is_none() {
            return Err(RemoteNeeded);
        }
        let udp_svr = match self.udp_remote {
            Some(remote) => Some(ServerPlan { bind: self.svr_bind_addr, remote }),
            None => None,
        };
        let tcp_svr = match self.udp_remote {
            Some(remote) => Some(ServerPlan { bind: self.svr_bind_addr, remote }),
            None => None,
        };
        Ok(
            DnsServer {
                udp_svr,
                tcp_svr,
                timeout: self.timeout,
                retry_times: self.retry_times,
                connect_opts: self.connect_opts.clone(),
            },
        )
    }
}

/// What is read next on a stream.
#[derive(Debug, Clone, Copy, PartialEq, Eq, Structural)]
pub enum StreamStage {
    /// The length of a question.
    Length,
    /// A question of this length.
    Body(usize),
}

/// What to do after something was read on a stream.
pub enum StreamStep {
    /// Read on.
    Read,
    /// Ask a remote resolver.
    Ask(Message),
    /// Close the stream: what was read holds no question.
    Stop(CodecError),
}

/// The next stage, and the question that was read or that there was none, after something was
/// read at a stage.
pub open spec fn next_stage(stage: StreamStage, data: Seq<u8>) -> (
    StreamStage,
    Option<Result<ServerMessage, CodecError>>,
) {
    match stage {
        StreamStage::Length => (StreamStage::Body(be(data) as usize), None),
        StreamStage::Body(_) => (
            StreamStage::Length,
            match decoded(data) {
                Some(message) => Some(Ok(message)),
                None => Some(Err(CodecError::Decode)),
            },
        ),
    }
}

/// The questions on one stream, and their answers.
pub struct TcpServer {
    stage: StreamStage,
    remote: SocketAddr,
}

impl TcpServer {
    pub closed spec fn stage(&self) -> StreamStage {
        self.stage
    }

    pub closed spec fn remote(&self) -> SocketAddr {
        self.remote
    }

    /// A stream on which nothing was read, and whose questions go to `remote`.
    pub fn new(remote: SocketAddr) -> (server: Self)
        ensures
            server.stage() is Length,
            server.remote() == remote,
    {
        TcpServer { stage: StreamStage::Length, remote }
    }

    /// The resolver that is asked.
    pub fn key(&self) -> (key: DnsKey)
        ensures
            key == DnsKey::TcpRemote(self.remote()),
    {
        DnsKey::TcpRemote(self.remote)
    }

    /// How many bytes have to be read next.
    pub fn wants(&self) -> (n: usize)
        ensures
            n == (match self.stage() {
                StreamStage::Length => 2,
                StreamStage::Body(len) => len,
            }),
    {
        match self.stage {
            StreamStage::Length => 2,
            StreamStage::Body(len) => len,
        }
    }

    /// Takes what was read, which is as much as `wants` said.
    pub fn receive(&mut self, data: &[u8]) -> (step: StreamStep)
        requires
            data@.len() == (match old(self).stage() {
                StreamStage::Length => 2,
                StreamStage::Body(len) => len as nat,
            }),
        ensures
            final(self).remote() == old(self).remote(),
            final(self).stage() == next_stage(old(self).stage(), data@).0,
            match next_stage(old(self).stage(), data@).1 {
                None => step is Read,
                Some(Ok(message)) => step matches StreamStep::Ask(m) && server_message(m)
                    == message,
                Some(Err(e)) => step == StreamStep::Stop(e),
            },
    {
        match self.stage {
            StreamStage::Length => {
                let head: [u8; 2] = [data[0], data[1]];
                proof {
                    assert(head@ =~= data@);
                }
                self.stage = StreamStage::Body(frame_len(head));
                StreamStep::Read
            },
            StreamStage::Body(_) => {
                self.stage = StreamStage::Length;
                match decode(data) {
                    Ok(message) => StreamStep::Ask(message),
                    Err(e) => StreamStep::Stop(e),
                }
            },
        }
    }

    /// What has to be written for an answer.
    pub fn answer(message: &Message) -> (bytes: Result<Vec<u8>, CodecError>)
        ensures
            match (bytes, encoded(server_message(*message))) {
                (Ok(b), Some(packet)) => b@ == framed(packet),
                (Err(e), None) => e is Encode,
                _ => false,
            },
    {
        match encode(message) {
            Ok(packet) => Ok(frame(packet.as_slice())),
            Err(e) => Err(e),
        }
    }
}

/// The questions in datagrams, and their answers.
pub struct UdpServer {
    remote: SocketAddr,
}

impl UdpServer {
    pub closed spec fn remote(&self) -> SocketAddr {
        self.remote
    }

    /// Questions go to `remote`.
    pub fn new(remote: SocketAddr) -> (server: Self)
        ensures
            server.remote() == remote,
    {
        UdpServer { remote }
    }

    /// The resolver that is asked.
    pub fn key(&self) -> (key: DnsKey)
        ensures
            key == DnsKey::UdpRemote(self.remote()),
    {
        DnsKey::UdpRemote(self.remote)
    }

    /// The question in a datagram. One that holds none is passed over.
    pub fn question(data: &[u8]) -> (message: Option<Message>)
        ensures
            message is Some <==> decoded(data@) is Some,
            message matches Some(m) ==> decoded(data@) == Some(server_message(m)),
    {
        match decode(data) {
            Ok(message) => Some(message),
            Err(_) => None,
        }
    }

    /// The datagram of an answer. One that cannot be written is passed over.
    pub fn answer(message: &Message) -> (packet: Option<Vec<u8>>)
        ensures
            packet is Some <==> encoded(server_message(*message)) is Some,
            packet matches Some(p) ==> encoded(server_message(*message)) == Some(p@),
    {
        match encode(message) {
            Ok(packet) => Some(packet),
            Err(_) => None,
        }
    }
}

/// Questions are read from a stream one after the other: first two bytes with a length, then as
/// many bytes. They are asked exactly where they hold a message, and the stream is closed where
/// they do not. Then the next length is read.
pub proof fn law_streams_read_question_after_question(head: Seq<u8>, packet: Seq<u8>)
    requires
        head.len() == 2,
        packet.len() == head[0] * 256 + head[1],
    ensures
        ({
            let (one, first) = next_stage(StreamStage::Length, head);
            let (two, second) = next_stage(one, packet);
            &&& first is None
            &&& one matches StreamStage::Body(len) && len == packet.len()
            &&& two is Length
            &&& match second {
                Some(Ok(message)) => decoded(packet) == Some(message),
                Some(Err(e)) => decoded(packet) is None && e is Decode,
                None => false,
            }
        }),
{
    lemma_be2(head);
}

/// What one end frames, the other reads back: the length that goes before a packet asks for
/// exactly that packet.
pub proof fn law_framed_packets_are_read_back(packet: Seq<u8>)
    requires
        packet.len() < 0x1_0000,
    ensures
        next_stage(StreamStage::Length, framed(packet).take(2)).0 == StreamStage::Body(
            packet.len() as usize,
        ),
        framed(packet).skip(2) == packet,
{
    law_frames_say_their_length(packet);
}

/// There is a server exactly where there is a remote resolver: it listens where it is told to, and
/// asks that resolver.
pub proof fn law_servers_ask_their_remote(bind: SocketAddr, remote: Option<SocketAddr>)
    ensures
        plan(bind, remote) is Some <==> remote is Some,
        plan(bind, remote) matches Some(p) ==> p.bind == bind && Some(p.remote) == remote,
{
}

} // verus!
