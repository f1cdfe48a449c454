//! Where the TCP connections out of the tunnel go, and which ones there are.

use crate::addr::{IpAddr, SocketAddr};
use crate::fakedns::{law_resolved_domain_is_found_again, FakeDNS, FakeDnsModel};
use crate::socks5::{Socks5Addr, TargetModel};
use crate::table::{Key, Table};
use vstd::prelude::*;

verus! {

/// The two ends of a connection.
#[derive(Debug, Clone, Copy, PartialEq, Eq, Structural)]
pub struct Ends {
    pub src: SocketAddr,
    pub dst: SocketAddr,
}

impl Key for Ends {
    fn same(&self, other: &Self) -> (same: bool) {
        *self == *other
    }
}

/// How a destination is reached.
pub enum Route {
    /// Directly.
    Direct(SocketAddr),
    /// By a proxy, which is told the domain.
    Socks5(Socks5Addr),
}

/// How a destination is reached, as a value.
pub enum RouteModel {
    Direct(SocketAddr),
    Socks5(TargetModel),
}

impl View for Route {
    type V = RouteModel;

    open spec fn view(&self) -> RouteModel {
        match *self {
            Route::Direct(addr) => RouteModel::Direct(addr),
            Route::Socks5(target) => RouteModel::Socks5(target@),
        }
    }
}

/// How a destination is reached: one whose address was made up for a domain, by the proxy, and
/// every other directly.
pub open spec fn route_to(dns: FakeDnsModel, dst: SocketAddr) -> RouteModel {
    match dst.ip {
        IpAddr::V4(ip) if dns.ip_2_domain.dom().contains(ip) => RouteModel::Socks5(
            TargetModel::Domain(dns.ip_2_domain[ip], dst.port),
        ),
        _ => RouteModel::Direct(dst),
    }
}

/// Chooses how a destination is reached.
pub fn route(dns: &FakeDNS, dst: SocketAddr) -> (route: Route)
    ensures
        route@ == route_to(dns@, dst),
{
    if let IpAddr::V4(ip) = dst.ip {
        if let Some(domain) = dns.query_domain(ip) {
            return Route::Socks5(Socks5Addr::Domain(domain, dst.port));
        }
    }
    Route::Direct(dst)
}

/// The connections that there are. `H` is what ends one.
pub struct TcpHandle<H> {
    connects: Table<Ends, H>,
}

impl<H> View for TcpHandle<H> {
    type V = Map<Ends, H>;

    closed spec fn view(&self) -> Map<Ends, H> {
        self.connects@
    }
}

impl<H> TcpHandle<H> {
    pub closed spec fn wf(&self) -> bool {
        self.connects.wf()
    }

    pub closed spec fn count(&self) -> nat {
        self.connects.count()
    }

    /// There are no connections.
    pub fn new() -> (handle: Self)
        ensures
            handle.wf(),
            handle@ == Map::<Ends, H>::empty(),
    {
        TcpHandle { connects: Table::new() }
    }

    /// How many connections there are.
    pub fn len(&self) -> (n: usize)
        requires
            self.wf(),
        ensures
            n == self@.dom().len(),
            n == self.count(),
    {
        self.connects.len()
    }

    /// A connection came up.
    pub fn connected(&mut self, src: SocketAddr, dst: SocketAddr, handle: H)
        requires
            old(self).wf(),
        ensures
            final(self).wf(),
            final(self)@ == old(self)@.insert(Ends { src, dst }, handle),
    {
        let _ = self.connects.insert(Ends { src, dst }, handle);
    }

    /// A connection is over.
    pub fn disconnected(&mut self, src: SocketAddr, dst: SocketAddr)
        requires
            old(self).wf(),
        ensures
            final(self).wf(),
            final(self)@ == old(self)@.remove(Ends { src, dst }),
    {
        let _ = self.connects.remove(&Ends { src, dst });
    }

    /// The connection at a place.
    pub closed spec fn entry(&self, i: int) -> (Ends, H) {
        self.connects.entry(i)
    }

    /// Every connection has a place: ending what is at each place ends them all.
    pub proof fn law_connections_have_places(&self, ends: Ends) -> (i: int)
        requires
            self.wf(),
            self@.dom().contains(ends),
        ensures
            0 <= i < self.count(),
            self.entry(i) == (ends, self@[ends]),
    {
        self.connects.law_entries_have_places(ends)
    }

    /// What ends the connection at a place. They are all to be ended when the machine's own
    /// address changes.
    pub fn handle(&self, i: usize) -> (handle: &H)
        requires
            self.wf(),
            i < self.count(),
        ensures
            *handle == self.entry(i as int).1,
    {
        let entry = self.connects.at(i);
        &entry.1
    }
}

/// A domain that was resolved goes by the proxy, under its own name, and an address that was not
/// made up is reached directly.
pub proof fn law_resolved_domains_go_by_the_proxy(
    dns: FakeDnsModel,
    domain: Seq<char>,
    port: u16,
    other: SocketAddr,
)
    requires
        dns.wf(),
    ensures
        ({
            let after = dns.resolved(domain);
            let dst = SocketAddr { ip: IpAddr::V4(after.domain_2_ip[domain]), port };
            &&& route_to(after, dst) == RouteModel::Socks5(TargetModel::Domain(domain, port))
            &&& !(other.ip matches IpAddr::V4(ip) && after.ip_2_domain.dom().contains(ip))
                ==> route_to(after, other) == RouteModel::Direct(other)
        }),
{
    law_resolved_domain_is_found_again(dns, domain);
}

/// A destination goes by the proxy exactly where its address was made up for a domain: then under
/// that domain and with the port that was asked for. Every other destination, and so every one of
/// version 6, is reached directly and as it is.
pub proof fn law_routes_keep_their_destination(dns: FakeDnsModel, dst: SocketAddr)
    ensures
        match route_to(dns, dst) {
            RouteModel::Direct(addr) => addr == dst && (dst.ip matches IpAddr::V4(ip)
                ==> !dns.ip_2_domain.dom().contains(ip)),
            RouteModel::Socks5(TargetModel::Domain(domain, port)) => {
                &&& dst.ip matches IpAddr::V4(ip)
                &&& dns.ip_2_domain.dom().contains(ip)
                &&& domain == dns.ip_2_domain[ip]
                &&& port == dst.port
            },
            RouteModel::Socks5(TargetModel::SocketAddr(_)) => false,
        },
{
}

} // verus!
