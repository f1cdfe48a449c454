//! Sets of networks.

use crate::text::{contains_text, text_contains, texts};
use ipnet::{AddrParseError, Ipv4Net, Ipv6Net};
use iprange::IpRange;
use smoltcp::wire::Ipv4Address;
use vstd::arithmetic::power2::pow2;
use vstd::prelude::*;

verus! {

#[verifier::external_type_specification]
#[verifier::external_body]
pub struct ExIpv4Net(ipnet::Ipv4Net);

#[verifier::external_type_specification]
#[verifier::external_body]
pub struct ExIpv6Net(ipnet::Ipv6Net);

#[verifier::external_type_specification]
#[verifier::external_body]
pub struct ExAddrParseError(ipnet::AddrParseError);

/// A set of IPv4 networks.
#[verifier::external_body]
pub struct Ipv4Ranges {
    range: IpRange<Ipv4Net>,
}

/// A set of IPv6 networks.
#[verifier::external_body]
pub struct Ipv6Ranges {
    range: IpRange<Ipv6Net>,
}

/// The address and the prefix length of a network.
pub uninterp spec fn net4(net: Ipv4Net) -> (u32, u8);

/// The address and the prefix length of a network.
pub uninterp spec fn net6(net: Ipv6Net) -> (u128, u8);

/// The network that a text gives, where it gives one.
pub uninterp spec fn parsed_net4(text: Seq<char>) -> Option<(u32, u8)>;

/// The network that a text gives, where it gives one.
pub uninterp spec fn parsed_net6(text: Seq<char>) -> Option<(u128, u8)>;

/// The addresses that a set of networks holds.
pub uninterp spec fn nets4(ranges: Ipv4Ranges) -> Set<u32>;

/// The networks that a set of networks holds, each whole in one of them.
pub uninterp spec fn nets6(ranges: Ipv6Ranges) -> Set<(u128, u8)>;

/// Whether an address is in a network: they agree on the bits of the prefix.
pub open spec fn in_net4(net: (u32, u8), ip: u32) -> bool {
    let host = pow2((32 - net.1) as nat);
    ip as nat / host == net.0 as nat / host
}

/// Whether a network is in another: its prefix is no shorter, and they agree on the bits of the
/// shorter one.
pub open spec fn in_net6(net: (u128, u8), inner: (u128, u8)) -> bool {
    let host = pow2((128 - net.1) as nat);
    net.1 <= inner.1 && inner.0 as nat / host == net.0 as nat / host
}

/// The addresses in a network.
pub open spec fn addresses4(net: (u32, u8)) -> Set<u32> {
    Set::new(|ip: u32| in_net4(net, ip))
}

/// The networks in a network.
pub open spec fn networks6(net: (u128, u8)) -> Set<(u128, u8)> {
    Set::new(|inner: (u128, u8)| in_net6(net, inner))
}

/// `iprange::IpRange::new`: no networks.
#[verifier::external_body]
fn ranges4_new() -> (ranges: Ipv4Ranges)
    ensures
        nets4(ranges) == Set::<u32>::empty(),
{
    Ipv4Ranges { range: IpRange::new() }
}

/// `iprange::IpRange::new`: no networks.
#[verifier::external_body]
fn ranges6_new() -> (ranges: Ipv6Ranges)
    ensures
        nets6(ranges) == Set::<(u128, u8)>::empty(),
{
    Ipv6Ranges { range: IpRange::new() }
}

/// `iprange::IpRange::add`: what the network holds is held too.
#[verifier::external_body]
fn ranges4_add(ranges: &mut Ipv4Ranges, net: Ipv4Net)
    ensures
        nets4(*final(ranges)) == nets4(*old(ranges)).union(addresses4(net4(net))),
{
    ranges.range.add(net);
}

/// `iprange::IpRange::add`: what the network holds is held too.
#[verifier::external_body]
fn ranges6_add(ranges: &mut Ipv6Ranges, net: Ipv6Net)
    ensures
        nets6(*final(ranges)) == nets6(*old(ranges)).union(networks6(net6(net))),
{
    ranges.range.add(net);
}

/// `iprange::IpRange::contains`, with an address: whether it is held.
#[verifier::external_body]
fn ranges4_contains(ranges: &Ipv4Ranges, ip: u32) -> (contains: bool)
    ensures
        contains == nets4(*ranges).contains(ip),
{
    ranges.range.contains(&Ipv4Address::from(ip))
}

/// `iprange::IpRange::contains`, with a network: whether it is held, whole in one of the networks
/// that were added.
#[verifier::external_body]
fn ranges6_contains(ranges: &Ipv6Ranges, net: &Ipv6Net) -> (contains: bool)
    ensures
        contains == nets6(*ranges).contains(net6(*net)),
{
    ranges.range.contains(net)
}

/// `ipnet::Ipv4Net`'s `FromStr`: the network that a text gives.
#[verifier::external_body]
fn parse_net4(text: &str) -> (net: Result<Ipv4Net, AddrParseError>)
    ensures
        net is Ok <==> parsed_net4(text@) is Some,
        net matches Ok(n) ==> parsed_net4(text@) == Some(net4(n)),
{
    text.parse()
}

/// `ipnet::Ipv6Net`'s `FromStr`: the network that a text gives.
#[verifier::external_body]
fn parse_net6(text: &str) -> (net: Result<Ipv6Net, AddrParseError>)
    ensures
        net is Ok <==> parsed_net6(text@) is Some,
        net matches Ok(n) ==> parsed_net6(text@) == Some(net6(n)),
{
    text.parse()
}

/// What networks of both versions hold, as a value.
pub struct CidrModel {
    /// The addresses of version 4.
    pub ipv4: Set<u32>,
    /// The networks of version 6.
    pub ipv6: Set<(u128, u8)>,
}

/// The networks after a line was added, where it gives one. A line with a colon gives one of
/// version 6.
pub open spec fn with_line(nets: CidrModel, line: Seq<char>) -> Option<CidrModel> {
    if text_contains(line, ":"@) {
        match parsed_net6(line) {
            Some(net) => Some(CidrModel { ipv6: nets.ipv6.union(networks6(net)), ..nets }),
            None => None,
        }
    } else {
        match parsed_net4(line) {
            Some(net) => Some(CidrModel { ipv4: nets.ipv4.union(addresses4(net)), ..nets }),
            None => None,
        }
    }
}

/// The networks after lines were added, up to the first one that gives none; and whether all gave
/// one.
pub open spec fn with_lines(nets: CidrModel, lines: Seq<Seq<char>>) -> (CidrModel, bool)
    decreases lines.len(),
{
    if lines.len() == 0 {
        (nets, true)
    } else {
        match with_line(nets, lines[0]) {
            Some(more) => with_lines(more, lines.drop_first()),
            None => (nets, false),
        }
    }
}

/// A line gives no network.
#[derive(Debug, Clone, Copy, PartialEq, Eq, Structural)]
pub struct BadLine;

/// Networks of both versions.
pub struct CidrCache {
    ipv4: Ipv4Ranges,
    ipv6: Ipv6Ranges,
}

impl View for CidrCache {
    type V = CidrModel;

    closed spec fn view(&self) -> CidrModel {
        CidrModel { ipv4: nets4(self.ipv4), ipv6: nets6(self.ipv6) }
    }
}

impl CidrCache {
    /// No networks.
    pub fn new() -> (cache: Self)
        ensures
            cache@ == (CidrModel { ipv4: Set::empty(), ipv6: Set::empty() }),
    {
        CidrCache { ipv4: ranges4_new(), ipv6: ranges6_new() }
    }

    pub fn add_ipv4(&mut self, v: Ipv4Net)
        ensures
            final(self)@ == (CidrModel {
                ipv4: old(self)@.ipv4.union(addresses4(net4(v))),
                ..old(self)@
            }),
    {
        ranges4_add(&mut self.ipv4, v);
    }

    /// Whether an address is in one of the networks.
    pub fn contains_ipv4net(&self, v: u32) -> (contains: bool)
        ensures
            contains == self@.ipv4.contains(v),
    {
        ranges4_contains(&self.ipv4, v)
    }

    /// Whether a network is in one of the networks.
    pub fn contains_ipv6net(&self, v: &Ipv6Net) -> (contains: bool)
        ensures
            contains == self@.ipv6.contains(net6(*v)),
    {
        ranges6_contains(&self.ipv6, v)
    }

    pub fn add_ipv6(&mut self, v: Ipv6Net)
        ensures
            final(self)@ == (CidrModel {
                ipv6: old(self)@.ipv6.union(networks6(net6(v))),
                ..old(self)@
            }),
    {
        ranges6_add(&mut self.ipv6, v);
    }

    /// Adds the network that a line gives.
    pub fn add_line(&mut self, line: &str) -> (res: Result<(), BadLine>)
        ensures
            match with_line(old(self)@, line@) {
                Some(nets) => res is Ok && final(self)@ == nets,
                None => res is Err && final(self)@ == old(self)@,
            },
    {
        if contains_text(line, ":") {
            match parse_net6(line) {
                Ok(net) => {
                    self.add_ipv6(net);
                    Ok(())
                },
                Err(_) => Err(BadLine),
            }
        } else {
            match parse_net4(line) {
                Ok(net) => {
                    self.add_ipv4(net);
                    Ok(())
                },
                Err(_) => Err(BadLine),
            }
        }
    }

    /// Adds the networks that lines give, up to the first line that gives none.
    pub fn load_lines(&mut self, lines: &Vec<String>) -> (res: Result<(), BadLine>)
        ensures
            (final(self)@, res is Ok) == with_lines(old(self)@, texts(lines@)),
    {
        let ghost all = texts(lines@);
        let mut i: usize = 0;
        proof {
            assert(all.skip(0) =~= all);
        }
        while i < lines.len()
            invariant
                i <= lines@.len(),
                all == texts(lines@),
                with_lines(self@, all.skip(i as int)) == with_lines(old(self)@, all),
            decreases lines@.len() - i,
        {
            let line = lines[i].as_str();
            proof {
                assert(all[i as int] == line@);
                assert(all.skip(i as int)[0] == line@);
                assert(all.skip(i as int).drop_first() =~= all.skip(i + 1));
            }
            if let Err(e) = self.add_line(line) {
                return Err(e);
            }
            i = i + 1;
        }
        Ok(())
    }
}

/// An address is held after a network was added exactly where it was before or is in the one that
/// was added.
pub proof fn law_adding_holds_the_added_addresses(held: Set<u32>, added: (u32, u8), ip: u32)
    ensures
        held.union(addresses4(added)).contains(ip) <==> held.contains(ip) || in_net4(added, ip),
{
}

/// A network is held after another was added exactly where it was before or is in the one that was
/// added.
pub proof fn law_adding_holds_the_added_networks(
    held: Set<(u128, u8)>,
    added: (u128, u8),
    inner: (u128, u8),
)
    ensures
        held.union(networks6(added)).contains(inner) <==> held.contains(inner) || in_net6(
            added,
            inner,
        ),
{
}

/// A line with a colon in it can give a network of version 6 and no other, and a line without one
/// a network of version 4 and no other. What the network holds is held then, and everything that
/// was held before.
pub proof fn law_lines_add_their_network(nets: CidrModel, line: Seq<char>)
    ensures
        ({
            let colon = exists|i: int| 0 <= i < line.len() && #[trigger] line[i] == ':';
            let after = with_line(nets, line);
            &&& colon ==> (after is Some <==> parsed_net6(line) is Some)
            &&& !colon ==> (after is Some <==> parsed_net4(line) is Some)
            &&& after matches Some(more) ==> {
                &&& colon ==> more.ipv4 == nets.ipv4 && forall|net: (u128, u8)| #[trigger]
                    more.ipv6.contains(net) <==> nets.ipv6.contains(net) || in_net6(
                        parsed_net6(line).unwrap(),
                        net,
                    )
                &&& !colon ==> more.ipv6 == nets.ipv6 && forall|ip: u32| #[trigger]
                    more.ipv4.contains(ip) <==> nets.ipv4.contains(ip) || in_net4(
                        parsed_net4(line).unwrap(),
                        ip,
                    )
            }
        }),
{
    reveal_strlit(":");
    if text_contains(line, ":"@) {
        let at = choose|at: int|
            0 <= at <= line.len() - ":"@.len() && #[trigger] line.subrange(at, at + ":"@.len())
                == ":"@;
        assert(line.subrange(at, at + 1)[0] == line[at]);
        assert(line[at] == ':');
    }
    if exists|i: int| 0 <= i < line.len() && #[trigger] line[i] == ':' {
        let i = choose|i: int| 0 <= i < line.len() && #[trigger] line[i] == ':';
        assert(line.subrange(i, i + ":"@.len()) =~= ":"@);
    }
}

/// Lines are added one after the other: adding some and then others is adding them all, and where
/// one gives no network, what stands before it was added and nothing behind it.
pub proof fn law_lines_are_added_in_order(
    nets: CidrModel,
    first: Seq<Seq<char>>,
    line: Seq<char>,
    rest: Seq<Seq<char>>,
)
    ensures
        with_lines(nets, Seq::empty()) == (nets, true),
        ({
            let (some, all) = with_lines(nets, first);
            let added = with_lines(nets, first + seq![line] + rest);
            if !all {
                added == (some, false)
            } else {
                match with_line(some, line) {
                    Some(more) => added == with_lines(more, rest),
                    None => added == (some, false),
                }
            }
        }),
    decreases first.len(),
{
    let lines = first + seq![line] + rest;
    if first.len() == 0 {
        assert(lines[0] == line);
        assert(lines.drop_first() =~= rest);
    } else {
        assert(lines[0] == first[0]);
        assert(lines.drop_first() =~= first.drop_first() + seq![line] + rest);
        if let Some(more) = with_line(nets, first[0]) {
            law_lines_are_added_in_order(more, first.drop_first(), line, rest);
        }
    }
}

} // verus!
