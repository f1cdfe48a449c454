//! What becomes of the UDP datagrams out of the tunnel.

use crate::addr::SocketAddr;
use crate::dns_message::{parsed, written};
use crate::fakedns::{asked_for, response_to, DNSProcessResult, FakeDNS, ResponseUnwritable};
use crate::table::Table;
use vstd::prelude::*;

verus! {

/// The port that resolvers are asked on.
pub const DNS_PORT: u16 = 53;

/// What becomes of a datagram.
#[derive(Debug, Clone, Copy, PartialEq, Eq, Structural)]
pub enum UdpRoute {
    /// It is a question for a resolver.
    Dns,
    /// It goes to the session of its sender.
    Forward,
    /// Its sender has no session yet.
    Open,
}

/// What becomes of a question for a resolver.
pub enum DnsStep {
    /// This goes back, from the resolver that was asked to who asked.
    Reply { data: Vec<u8>, from: SocketAddr, to: SocketAddr },
    /// The question goes on to the resolver that was asked.
    Proxy,
    /// Nothing: the answer could not be written.
    Skip,
}

/// What becomes of a question, given what the resolver made of it.
pub fn after_process(
    result: Result<DNSProcessResult, ResponseUnwritable>,
    s_addr: SocketAddr,
    d_addr: SocketAddr,
) -> (step: DnsStep)
    ensures
        match result {
            Ok(DNSProcessResult::Response(data)) => step == (DnsStep::Reply {
                data,
                from: d_addr,
                to: s_addr,
            }),
            Ok(DNSProcessResult::Upstream) => step is Proxy,
            Err(_) => step is Skip,
        },
{
    match result {
        Ok(DNSProcessResult::Response(data)) => DnsStep::Reply { data, from: d_addr, to: s_addr },
        Ok(DNSProcessResult::Upstream) => DnsStep::Proxy,
        Err(_) => DnsStep::Skip,
    }
}

/// Deals with a question for a resolver.
pub fn handle_dns(
    dns: &mut FakeDNS,
    data: &[u8],
    s_addr: SocketAddr,
    d_addr: SocketAddr,
) -> (step: DnsStep)
    requires
        old(dns).wf(),
    ensures
        final(dns).wf(),
        match asked_for(old(dns)@, data@) {
            None => final(dns)@ == old(dns)@ && step is Proxy,
            Some(domain) => {
                let request = parsed(data@).unwrap();
                let ip = final(dns)@.domain_2_ip[domain];
                &&& final(dns)@ == old(dns)@.resolved(domain)
                &&& match written(
                    response_to(request, request.queries[0], ip),
                    Seq::empty(),
                ) {
                    Some(bytes) => step matches DnsStep::Reply { data: d, from, to } && d@ == bytes
                        && from == d_addr && to == s_addr,
                    None => step is Skip,
                }
            },
        },
{
    let result = dns.process_dns_packet(data);
    after_process(result, s_addr, d_addr)
}

/// The sessions of the senders. `S` is where a session's datagrams go.
pub struct UdpHandle<S> {
    sessions: Table<SocketAddr, S>,
}

impl<S> View for UdpHandle<S> {
    type V = Map<SocketAddr, S>;

    closed spec fn view(&self) -> Map<SocketAddr, S> {
        self.sessions@
    }
}

/// What becomes of a datagram from `s_addr` to `d_addr`.
pub open spec fn udp_route<S>(
    sessions: Map<SocketAddr, S>,
    s_addr: SocketAddr,
    d_addr: SocketAddr,
) -> UdpRoute {
    if d_addr.port == DNS_PORT {
        UdpRoute::Dns
    } else if sessions.dom().contains(s_addr) {
        UdpRoute::Forward
    } else {
        UdpRoute::Open
    }
}

impl<S> UdpHandle<S> {
    pub closed spec fn wf(&self) -> bool {
        self.sessions.wf()
    }

    /// There are no sessions.
    pub fn new() -> (handle: Self)
        ensures
            handle.wf(),
            handle@ == Map::<SocketAddr, S>::empty(),
    {
        UdpHandle { sessions: Table::new() }
    }

    /// How many sessions there are.
    pub fn len(&self) -> (n: usize)
        requires
            self.wf(),
        ensures
            n == self@.dom().len(),
    {
        self.sessions.len()
    }

    /// Decides what becomes of a datagram.
    pub fn route(&self, s_addr: SocketAddr, d_addr: SocketAddr) -> (route: UdpRoute)
        requires
            self.wf(),
        ensures
            route == udp_route(self@, s_addr, d_addr),
    {
        if d_addr.port == DNS_PORT {
            UdpRoute::Dns
        } else if self.sessions.contains_key(&s_addr) {
            UdpRoute::Forward
        } else {
            UdpRoute::Open
        }
    }

    /// Where the datagrams of a sender go.
    pub fn session(&self, s_addr: SocketAddr) -> (session: Option<&S>)
        requires
            self.wf(),
        ensures
            session is Some <==> self@.dom().contains(s_addr),
            session matches Some(s) ==> *s == self@[s_addr],
    {
        self.sessions.get(&s_addr)
    }

    /// A session was opened.
    pub fn opened(&mut self, s_addr: SocketAddr, session: S)
        requires
            old(self).wf(),
        ensures
            final(self).wf(),
            final(self)@ == old(self)@.insert(s_addr, session),
    {
        let _ = self.sessions.insert(s_addr, session);
    }

    /// A session is over: nothing takes its datagrams any more, or none came back for too long.
    pub fn closed(&mut self, s_addr: SocketAddr)
        requires
            old(self).wf(),
        ensures
            final(self).wf(),
            final(self)@ == old(self)@.remove(s_addr),
    {
        let _ = self.sessions.remove(&s_addr);
    }
}

/// After a session was opened its sender's datagrams go there, and those of the others go where
/// they did.
pub proof fn law_sessions_are_by_sender<S>(
    sessions: Map<SocketAddr, S>,
    s_addr: SocketAddr,
    session: S,
    other: SocketAddr,
    d_addr: SocketAddr,
)
    requires
        d_addr.port != DNS_PORT,
    ensures
        udp_route(sessions.insert(s_addr, session), s_addr, d_addr) is Forward,
        udp_route(sessions.remove(s_addr), s_addr, d_addr) is Open,
        other != s_addr ==> udp_route(sessions.insert(s_addr, session), other, d_addr) == udp_route(
            sessions,
            other,
            d_addr,
        ),
{
}

/// A datagram for a resolver never reaches a session, whoever sends it.
pub proof fn law_questions_open_no_session<S>(
    sessions: Map<SocketAddr, S>,
    s_addr: SocketAddr,
    d_addr: SocketAddr,
)
    requires
        d_addr.port == DNS_PORT,
    ensures
        udp_route(sessions, s_addr, d_addr) is Dns,
{
}

/// What is sent to port 53 is a question for a resolver, and nothing else is. Everything else goes
/// to the session of its sender where there is one, wherever it is sent, and else opens one.
pub proof fn law_datagrams_go_by_port_and_sender<S>(
    sessions: Map<SocketAddr, S>,
    s_addr: SocketAddr,
    d_addr: SocketAddr,
)
    ensures
        udp_route(sessions, s_addr, d_addr) is Dns <==> d_addr.port == 53,
        udp_route(sessions, s_addr, d_addr) is Forward <==> d_addr.port != 53
            && sessions.dom().contains(s_addr),
        udp_route(sessions, s_addr, d_addr) is Open <==> d_addr.port != 53
            && !sessions.dom().contains(s_addr),
{
}

} // verus!
