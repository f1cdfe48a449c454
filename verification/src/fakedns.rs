//! A resolver that makes addresses up: each domain that it answers for gets an address of a
//! reserved range, and the domain can be found again by the address.

use crate::addr::{IpAddr, SocketAddr};
use crate::dns_message::{
    law_without_options_there_is_one_order, message_add_answer, message_add_query, message_from_vec,
    message_id, message_model, message_new, message_op_code, message_queries,
    message_recursion_available, message_recursion_desired, message_set_id, message_set_op_code,
    message_set_recursion_available, message_set_recursion_desired, message_set_response,
    message_set_response_code, message_to_vec, name_text, parsed, query_class, query_model,
    query_name_is_fqdn, query_name_to_ascii, query_type, written, AnswerModel, MessageModel,
    QueryModel, CLASS_IN, NO_ERROR, OP_QUERY, TYPE_A, TYPE_AAAA, TYPE_HTTPS,
};
use crate::text::{contains_text, same_text, text_contains};
use crate::wire::{be, be32, law_be32_reads_back};
use std::collections::HashMap;
use trust_dns_proto::op::{Message, Query};
use vstd::hash_map::StringHashMap;
use vstd::prelude::*;

verus! {

/// The first address of the range, 192.18.0.0.
pub const FAKE_IP_START: u32 = 0xC012_0000;

/// The last address of the range, 192.18.255.255.
pub const FAKE_IP_END: u32 = 0xC012_FFFF;

/// How long an answer may be kept, in seconds.
pub const FAKE_TTL: u32 = 1;

/// Whether an address is handed out: it is in the range, and neither the first nor the last of
/// its block of 256.
pub open spec fn usable(ip: u32) -> bool {
    FAKE_IP_START <= ip < FAKE_IP_END && ip % 256 != 0 && ip % 256 != 255
}

/// The address that is handed out after `ip`: the next usable one, or the first after the last.
pub open spec fn next_usable(ip: u32) -> u32 {
    if ip % 256 != 254 {
        (ip + 1) as u32
    } else if ip + 1 == FAKE_IP_END {
        (FAKE_IP_START + 1) as u32
    } else {
        (ip + 3) as u32
    }
}

/// The address after `cursor` in a range, which starts again at its end.
pub open spec fn stepped(cursor: u32, start: u32, end: u32) -> u32 {
    if cursor + 1 >= end {
        start
    } else {
        (cursor + 1) as u32
    }
}

/// Whether an address is the first or the last of its block of 256.
pub open spec fn at_edge(ip: u32) -> bool {
    ip % 256 == 0 || ip % 256 == 255
}

/// Where the cursor goes from an address of a range: to the first of the next three that is not at
/// an edge, or to the third. And whether that one can be handed out.
pub open spec fn next_cursor(cursor: u32, start: u32, end: u32) -> (u32, bool) {
    let first = stepped(cursor, start, end);
    let second = stepped(first, start, end);
    let third = stepped(second, start, end);
    if !at_edge(first) {
        (first, true)
    } else if !at_edge(second) {
        (second, true)
    } else {
        (third, !at_edge(third))
    }
}

/// The place of a usable address among all of them, in the order in which they are handed out.
#[verifier::opaque]
pub open spec fn turn(ip: u32) -> int {
    (ip - FAKE_IP_START) / 256 * 254 + ip % 256 - 1
}

/// How many addresses can be handed out.
pub const USABLE: u32 = 65024;

/// The resolver as a value.
pub struct FakeDnsModel {
    pub ip_2_domain: Map<u32, Seq<char>>,
    pub domain_2_ip: Map<Seq<char>, u32>,
    /// The address that is handed out next.
    pub cursor: u32,
    pub filter: Seq<Seq<char>>,
}

impl FakeDnsModel {
    /// The two tables say the same, and every address in them is a usable one.
    pub open spec fn wf(self) -> bool {
        &&& usable(self.cursor)
        &&& forall|ip: u32| #[trigger]
            self.ip_2_domain.dom().contains(ip) ==> usable(ip) && self.domain_2_ip.dom().contains(
                self.ip_2_domain[ip],
            ) && self.domain_2_ip[self.ip_2_domain[ip]] == ip
        &&& forall|domain: Seq<char>| #[trigger]
            self.domain_2_ip.dom().contains(domain) ==> self.ip_2_domain.dom().contains(
                self.domain_2_ip[domain],
            ) && self.ip_2_domain[self.domain_2_ip[domain]] == domain
    }

    /// Whether the resolver answers for a name: some filter stands in it, or is a star.
    pub open spec fn accepts(self, name: Seq<char>) -> bool {
        exists|i: int|
            0 <= i < self.filter.len() && (text_contains(name, #[trigger] self.filter[i])
                || self.filter[i] == "*"@)
    }

    /// The resolver after the next address was given to a domain. The domain that had it before
    /// loses it.
    pub open spec fn allocated(self, domain: Seq<char>) -> FakeDnsModel {
        let kept = if self.ip_2_domain.dom().contains(self.cursor) {
            self.domain_2_ip.remove(self.ip_2_domain[self.cursor])
        } else {
            self.domain_2_ip
        };
        FakeDnsModel {
            ip_2_domain: self.ip_2_domain.insert(self.cursor, domain),
            domain_2_ip: kept.insert(domain, self.cursor),
            cursor: next_usable(self.cursor),
            ..self
        }
    }

    /// The resolver after it was asked for a domain: one that has no address gets one.
    pub open spec fn resolved(self, domain: Seq<char>) -> FakeDnsModel {
        if self.domain_2_ip.dom().contains(domain) {
            self
        } else {
            self.allocated(domain)
        }
    }
}

/// Whether a question is of a kind that the resolver answers.
pub open spec fn answerable(qclass: u16, qtype: u16) -> bool {
    qclass == CLASS_IN && (qtype == TYPE_A || qtype == TYPE_AAAA || qtype == TYPE_HTTPS)
}

/// The domain of a name: without the dot at its end where it ends at the root.
pub open spec fn domain_of(name: Seq<char>, fqdn: bool) -> Seq<char> {
    if fqdn {
        name.drop_last()
    } else {
        name
    }
}

/// The response to a question. It holds the address only where one of version 4 was asked for.
pub open spec fn response_to(request: MessageModel, query: QueryModel, ip: u32) -> MessageModel {
    MessageModel {
        id: request.id,
        response: true,
        op_code: request.op_code,
        recursion_available: request.op_code == OP_QUERY && request.recursion_available,
        recursion_desired: request.op_code == OP_QUERY && request.recursion_desired,
        response_code: NO_ERROR as u16,
        queries: seq![query],
        answers: if query.qtype == TYPE_A {
            seq![
                AnswerModel {
                    name: query.name,
                    rtype: TYPE_A,
                    class: CLASS_IN,
                    ttl: FAKE_TTL,
                    data: be32(ip),
                },
            ]
        } else {
            Seq::empty()
        },
        options: Seq::empty(),
        rest: Seq::empty(),
    }
}

/// The domain that a packet asks this resolver for, if it does.
pub open spec fn asked_for(m: FakeDnsModel, packet: Seq<u8>) -> Option<Seq<char>> {
    match parsed(packet) {
        Some(request) if request.queries.len() > 0 => {
            let query = request.queries[0];
            let name = name_text(query.name);
            if answerable(query.qclass, query.qtype) && m.accepts(name) {
                Some(domain_of(name, query.name.fqdn))
            } else {
                None
            }
        },
        _ => None,
    }
}

/// What becomes of a packet.
#[derive(Debug)]
pub enum DNSProcessResult {
    /// The answer to it.
    Response(Vec<u8>),
    /// Another resolver has to answer it.
    Upstream,
}

/// The response could not be written.
#[derive(Debug, Clone, Copy, PartialEq, Eq, Structural)]
pub struct ResponseUnwritable;

/// The range has no address that can be handed out next.
#[derive(Debug, Clone, Copy, PartialEq, Eq, Structural)]
pub struct NoCursor;

/// The resolver.
pub struct FakeDNS {
    ip_2_domain: HashMap<u32, String>,
    domain_2_ip: StringHashMap<u32>,
    cursor: u32,
    filter: Vec<String>,
}

impl View for FakeDNS {
    type V = FakeDnsModel;

    closed spec fn view(&self) -> FakeDnsModel {
        FakeDnsModel {
            ip_2_domain: self.ip_2_domain@.map_values(|domain: String| domain@),
            domain_2_ip: self.domain_2_ip@,
            cursor: self.cursor,
            filter: self.filter@.map_values(|f: String| f@),
        }
    }
}

/// Moves the cursor to the next address of a range that can be handed out, and from its end back
/// to its start. Three addresses are tried, and the cursor stays at the last of them where none
/// can be handed out.
pub fn prepare_next_cursor(cursor: &mut u32, start: u32, end: u32) -> (moved: Result<(), NoCursor>)
    requires
        *old(cursor) < u32::MAX,
        start < u32::MAX,
    ensures
        (*final(cursor), moved is Ok) == next_cursor(*old(cursor), start, end),
{
    let mut tried: u32 = 0;
    while tried < 3
        invariant
            tried <= 3,
            *cursor < u32::MAX,
            start < u32::MAX,
            tried == 0 ==> *cursor == *old(cursor),
            tried == 1 ==> *cursor == stepped(*old(cursor), start, end),
            tried == 2 ==> *cursor == stepped(stepped(*old(cursor), start, end), start, end),
            tried == 3 ==> *cursor == stepped(
                stepped(stepped(*old(cursor), start, end), start, end),
                start,
                end,
            ),
            tried >= 1 ==> at_edge(stepped(*old(cursor), start, end)),
            tried >= 2 ==> at_edge(stepped(stepped(*old(cursor), start, end), start, end)),
            tried == 3 ==> at_edge(*cursor),
        decreases 3 - tried,
    {
        *cursor = *cursor + 1;
        if *cursor >= end {
            *cursor = start;
        }
        let last: u32 = *cursor % 256;
        if last != 0 && last != 255 {
            return Ok(());
        }
        tried = tried + 1;
    }
    Err(NoCursor)
}

impl FakeDNS {
    /// The resolver is in order.
    pub open spec fn wf(&self) -> bool {
        self@.wf()
    }

    /// A resolver that answers for nothing yet.
    pub fn new() -> (dns: Self)
        ensures
            dns.wf(),
            dns@ == (FakeDnsModel {
                ip_2_domain: Map::empty(),
                domain_2_ip: Map::empty(),
                cursor: (FAKE_IP_START + 1) as u32,
                filter: Seq::empty(),
            }),
    {
        let mut cursor: u32 = FAKE_IP_START;
        let _moved = prepare_next_cursor(&mut cursor, FAKE_IP_START, FAKE_IP_END);
        let dns = FakeDNS {
            ip_2_domain: HashMap::new(),
            domain_2_ip: StringHashMap::new(),
            cursor,
            filter: Vec::new(),
        };
        proof {
            assert(dns@.ip_2_domain =~= Map::empty());
            assert(dns@.filter =~= Seq::empty());
        }
        dns
    }

    /// Whether an address was made up by this resolver.
    pub fn is_fake_ip(&self, addr: SocketAddr) -> (fake: bool)
        ensures
            fake == (addr.ip matches IpAddr::V4(ip) && self@.ip_2_domain.dom().contains(ip)),
    {
        match addr.ip {
            IpAddr::V4(ip) => self.ip_2_domain.contains_key(&ip),
            IpAddr::V6(_) => false,
        }
    }

    /// Makes the resolver answer for names in which `domain` stands.
    pub fn add_filter(&mut self, domain: &str)
        ensures
            final(self)@ == (FakeDnsModel {
                filter: old(self)@.filter.push(domain@),
                ..old(self)@
            }),
    {
        self.filter.push(domain.to_owned());
        proof {
            assert(self@.filter =~= old(self)@.filter.push(domain@));
        }
    }

    /// Whether the resolver answers for a name.
    pub fn accept(&self, domain: &str) -> (accepted: bool)
        ensures
            accepted == self@.accepts(domain@),
    {
        let mut i: usize = 0;
        while i < self.filter.len()
            invariant
                i <= self.filter@.len(),
                forall|j: int|
                    0 <= j < i ==> !(text_contains(domain@, #[trigger] self@.filter[j])
                        || self@.filter[j] == "*"@),
            decreases self.filter@.len() - i,
        {
            let f = self.filter[i].as_str();
            proof {
                assert(self@.filter[i as int] == f@);
            }
            if contains_text(domain, f) || same_text(f, "*") {
                return true;
            }
            i = i + 1;
        }
        false
    }

    /// The domain that has an address.
    pub fn query_domain(&self, ip: u32) -> (domain: Option<String>)
        ensures
            domain is Some <==> self@.ip_2_domain.dom().contains(ip),
            domain matches Some(d) ==> d@ == self@.ip_2_domain[ip],
    {
        match self.ip_2_domain.get(&ip) {
            Some(domain) => Some(domain.clone()),
            None => None,
        }
    }

    /// The address that a domain has.
    pub fn query_ip(&self, domain: &str) -> (ip: Option<u32>)
        ensures
            ip == (if self@.domain_2_ip.dom().contains(domain@) {
                Some(self@.domain_2_ip[domain@])
            } else {
                None
            }),
    {
        match self.domain_2_ip.get(domain) {
            Some(ip) => Some(*ip),
            None => None,
        }
    }

    /// Gives the next address to a domain that has none.
    pub fn alloc_fake_ip(&mut self, domain: &str) -> (ip: u32)
        requires
            old(self).wf(),
            !old(self)@.domain_2_ip.dom().contains(domain@),
        ensures
            final(self).wf(),
            final(self)@ == old(self)@.allocated(domain@),
            ip == old(self)@.cursor,
    {
        let ghost m = self@;
        let ip: u32 = self.cursor;
        let before = self.ip_2_domain.insert(ip, domain.to_owned());
        proof {
            assert(self@.ip_2_domain =~= m.ip_2_domain.insert(ip, domain@));
        }
        if let Some(evicted) = before {
            self.domain_2_ip.remove(evicted.as_str());
        }
        self.domain_2_ip.insert(domain.to_owned(), ip);
        let _moved = prepare_next_cursor(&mut self.cursor, FAKE_IP_START, FAKE_IP_END);
        proof {
            law_the_range_never_runs_out(ip);
            assert(_moved is Ok);
            law_allocation_keeps_order(m, domain@);
        }
        ip
    }

    /// The address of a domain, which gets one if it has none.
    pub fn resolve(&mut self, domain: &str) -> (ip: u32)
        requires
            old(self).wf(),
        ensures
            final(self).wf(),
            final(self)@ == old(self)@.resolved(domain@),
            ip == final(self)@.domain_2_ip[domain@],
    {
        match self.query_ip(domain) {
            Some(ip) => ip,
            None => self.alloc_fake_ip(domain),
        }
    }

    /// The address for a question, where the resolver answers it: the domain gets one if it has
    /// none.
    pub fn answer(&mut self, qclass: u16, qtype: u16, name: &str, fqdn: bool) -> (ip: Option<u32>)
        requires
            old(self).wf(),
            fqdn ==> name@.len() > 0,
        ensures
            final(self).wf(),
            if answerable(qclass, qtype) && old(self)@.accepts(name@) {
                let domain = domain_of(name@, fqdn);
                &&& final(self)@ == old(self)@.resolved(domain)
                &&& ip == Some(final(self)@.domain_2_ip[domain])
            } else {
                &&& final(self)@ == old(self)@
                &&& ip is None
            },
    {
        if qclass != CLASS_IN {
            return None;
        }
        if qtype != TYPE_A && qtype != TYPE_AAAA && qtype != TYPE_HTTPS {
            return None;
        }
        if !self.accept(name) {
            return None;
        }
        if fqdn {
            let len: usize = name.unicode_len();
            let domain = name.substring_char(0, len - 1);
            proof {
                assert(domain@ =~= name@.drop_last());
            }
            Some(self.resolve(domain))
        } else {
            Some(self.resolve(name))
        }
    }

    /// Answers a packet, or leaves it to another resolver.
    pub fn process_dns_packet(&mut self, packet: &[u8]) -> (result: Result<
        DNSProcessResult,
        ResponseUnwritable,
    >)
        requires
            old(self).wf(),
        ensures
            final(self).wf(),
            match asked_for(old(self)@, packet@) {
                None => {
                    &&& final(self)@ == old(self)@
                    &&& result matches Ok(DNSProcessResult::Upstream)
                },
                Some(domain) => {
                    let request = parsed(packet@).unwrap();
                    let ip = final(self)@.domain_2_ip[domain];
                    &&& final(self)@ == old(self)@.resolved(domain)
                    &&& match (
                        result,
                        written(response_to(request, request.queries[0], ip), Seq::empty()),
                    ) {
                        (Ok(DNSProcessResult::Response(p)), Some(bytes)) => p@ == bytes,
                        (Err(_), None) => true,
                        _ => false,
                    }
                },
            },
    {
        let request = match message_from_vec(packet) {
            Ok(request) => request,
            Err(_) => return Ok(DNSProcessResult::Upstream),
        };
        let queries = message_queries(&request);
        if queries.len() == 0 {
            return Ok(DNSProcessResult::Upstream);
        }
        let query = &queries[0];
        let name = query_name_to_ascii(query);
        let answer = self.answer(
            query_class(query),
            query_type(query),
            name.as_str(),
            query_name_is_fqdn(query),
        );
        let ip: u32 = match answer {
            Some(ip) => ip,
            None => return Ok(DNSProcessResult::Upstream),
        };
        let response = build_response(&request, query, ip);
        match message_to_vec(&response) {
            Ok(bytes) => {
                proof {
                    law_without_options_there_is_one_order(
                        message_model(response),
                        Some(bytes@),
                    );
                }
                Ok(DNSProcessResult::Response(bytes))
            },
            Err(_) => {
                proof {
                    law_without_options_there_is_one_order(message_model(response), None);
                }
                Err(ResponseUnwritable)
            },
        }
    }
}

/// Builds the response to a question.
fn build_response(request: &Message, query: &Query, ip: u32) -> (response: Message)
    ensures
        message_model(response) == response_to(message_model(*request), query_model(*query), ip),
{
    let mut response = message_new();
    message_set_id(&mut response, message_id(request));
    message_set_response(&mut response);
    message_set_op_code(&mut response, request);
    if message_op_code(&response) == OP_QUERY {
        message_set_recursion_available(&mut response, message_recursion_available(request));
        message_set_recursion_desired(&mut response, message_recursion_desired(request));
    }
    message_set_response_code(&mut response, NO_ERROR);
    message_add_query(&mut response, query);
    if query_type(query) == TYPE_A {
        message_add_answer(&mut response, query, TYPE_A, CLASS_IN, FAKE_TTL, ip);
    }
    proof {
        let m = message_model(response);
        let expected = response_to(message_model(*request), query_model(*query), ip);
        assert(m.queries =~= expected.queries);
        assert(m.answers =~= expected.answers);
    }
    response
}

/// A cursor that moves stays in its range, and is never the first or the last of its block of 256.
pub proof fn law_the_cursor_stays_in_its_range(cursor: u32, start: u32, end: u32)
    requires
        start <= cursor < end,
        next_cursor(cursor, start, end).1,
    ensures
        start <= next_cursor(cursor, start, end).0 < end,
        !at_edge(next_cursor(cursor, start, end).0),
{
}

/// In the range of the resolver the cursor always moves, to a usable address. From one of those it
/// goes to the next, and from the start of the range to the first.
pub proof fn law_the_range_never_runs_out(cursor: u32)
    requires
        FAKE_IP_START <= cursor < FAKE_IP_END,
    ensures
        next_cursor(cursor, FAKE_IP_START, FAKE_IP_END).1,
        usable(next_cursor(cursor, FAKE_IP_START, FAKE_IP_END).0),
        usable(cursor) || cursor == FAKE_IP_START ==> next_cursor(
            cursor,
            FAKE_IP_START,
            FAKE_IP_END,
        ).0 == next_usable(cursor),
{
}

/// Giving an address to a domain that has none keeps the two tables in step.
pub proof fn law_allocation_keeps_order(m: FakeDnsModel, domain: Seq<char>)
    requires
        m.wf(),
        !m.domain_2_ip.dom().contains(domain),
    ensures
        m.allocated(domain).wf(),
{
    let n = m.allocated(domain);
    assert forall|ip: u32| #[trigger] n.ip_2_domain.dom().contains(ip) implies usable(ip)
        && n.domain_2_ip.dom().contains(n.ip_2_domain[ip]) && n.domain_2_ip[n.ip_2_domain[ip]]
        == ip by {
        if ip != m.cursor {
            assert(m.ip_2_domain.dom().contains(ip));
        }
    }
    assert forall|d: Seq<char>| #[trigger]
        n.domain_2_ip.dom().contains(d) implies n.ip_2_domain.dom().contains(n.domain_2_ip[d])
        && n.ip_2_domain[n.domain_2_ip[d]] == d by {
        if d != domain {
            assert(m.domain_2_ip.dom().contains(d));
        }
    }
}

/// A domain that was asked for can be found by the address that it got, and has no other one.
pub proof fn law_resolved_domain_is_found_again(m: FakeDnsModel, domain: Seq<char>)
    requires
        m.wf(),
    ensures
        ({
            let n = m.resolved(domain);
            &&& n.domain_2_ip.dom().contains(domain)
            &&& n.ip_2_domain.dom().contains(n.domain_2_ip[domain])
            &&& n.ip_2_domain[n.domain_2_ip[domain]] == domain
            &&& usable(n.domain_2_ip[domain])
            &&& forall|ip: u32| #[trigger]
                n.ip_2_domain.dom().contains(ip) && n.ip_2_domain[ip] == domain ==> ip
                    == n.domain_2_ip[domain]
        }),
{
    if !m.domain_2_ip.dom().contains(domain) {
        law_allocation_keeps_order(m, domain);
    }
}

/// Asking for a domain again changes nothing.
pub proof fn law_resolving_twice_is_resolving_once(m: FakeDnsModel, domain: Seq<char>)
    ensures
        m.resolved(domain).resolved(domain) == m.resolved(domain),
{
}

/// No two domains have one address.
pub proof fn law_addresses_differ(m: FakeDnsModel, a: Seq<char>, b: Seq<char>)
    requires
        m.wf(),
        m.domain_2_ip.dom().contains(a),
        m.domain_2_ip.dom().contains(b),
        m.domain_2_ip[a] == m.domain_2_ip[b],
    ensures
        a == b,
{
}

/// A domain keeps its address until that address is handed out again.
pub proof fn law_domains_keep_their_addresses(m: FakeDnsModel, kept: Seq<char>, domain: Seq<char>)
    requires
        m.wf(),
        m.domain_2_ip.dom().contains(kept),
        m.domain_2_ip[kept] != m.cursor,
    ensures
        m.resolved(domain).domain_2_ip.dom().contains(kept),
        m.resolved(domain).domain_2_ip[kept] == m.domain_2_ip[kept],
{
}

/// The block and the place in it that a usable address has, and its turn by them.
proof fn lemma_turn(ip: u32) -> (at: (int, int))
    requires
        usable(ip),
    ensures
        0 <= at.0 < 256,
        0 <= at.1 < 254,
        ip == FAKE_IP_START + at.0 * 256 + at.1 + 1,
        turn(ip) == at.0 * 254 + at.1,
{
    reveal(turn);
    let block = (ip - FAKE_IP_START) / 256;
    let place = ip % 256 - 1;
    assert(ip - FAKE_IP_START == block * 256 + place + 1);
    (block, place)
}

/// Addresses are handed out in turn: each is followed by the one whose turn is next, and after
/// the last comes the first.
pub proof fn law_addresses_take_turns(ip: u32, other: u32)
    requires
        usable(ip),
        usable(other),
    ensures
        usable(next_usable(ip)),
        0 <= turn(ip) < USABLE,
        turn(next_usable(ip)) == (if turn(ip) + 1 == USABLE {
            0
        } else {
            turn(ip) + 1
        }),
        turn(ip) == turn(other) ==> ip == other,
{
    let (block, place) = lemma_turn(ip);
    let (other_block, other_place) = lemma_turn(other);
    let next = next_usable(ip);
    assert(usable(next));
    let (next_block, next_place) = lemma_turn(next);
    if place < 253 {
        assert(next == ip + 1);
        assert(next_block == block);
    } else if block == 255 {
        assert(next == FAKE_IP_START + 1);
        assert(next_block == 0);
    } else {
        assert(next == ip + 3);
        assert(next_block == block + 1);
    }
    if turn(ip) == turn(other) {
        assert(block == other_block);
    }
}

/// The resolver after it was asked for some domains, one after the other.
pub open spec fn resolved_all(m: FakeDnsModel, domains: Seq<Seq<char>>) -> FakeDnsModel
    decreases domains.len(),
{
    if domains.len() == 0 {
        m
    } else {
        resolved_all(m.resolved(domains[0]), domains.drop_first())
    }
}

/// How many addresses are handed out before it is the turn of `ip`.
pub open spec fn turns_before(m: FakeDnsModel, ip: u32) -> int {
    if turn(m.cursor) <= turn(ip) {
        turn(ip) - turn(m.cursor)
    } else {
        turn(ip) + USABLE - turn(m.cursor)
    }
}

/// The resolver after it was given a packet.
pub open spec fn processed(m: FakeDnsModel, packet: Seq<u8>) -> FakeDnsModel {
    match asked_for(m, packet) {
        Some(domain) => m.resolved(domain),
        None => m,
    }
}

/// Something that the resolver is called for, as a value.
pub enum FakeDnsCall {
    /// A domain is asked for.
    Resolve(Seq<char>),
    /// A packet comes.
    Packet(Seq<u8>),
    /// It is to answer for more names.
    Filter(Seq<char>),
}

/// The resolver after a call.
pub open spec fn called(m: FakeDnsModel, call: FakeDnsCall) -> FakeDnsModel {
    match call {
        FakeDnsCall::Resolve(domain) => m.resolved(domain),
        FakeDnsCall::Packet(packet) => processed(m, packet),
        FakeDnsCall::Filter(f) => FakeDnsModel { filter: m.filter.push(f), ..m },
    }
}

/// Whether a call brings in a domain that has no address.
pub open spec fn brings_in(m: FakeDnsModel, call: FakeDnsCall) -> bool {
    match call {
        FakeDnsCall::Resolve(domain) => !m.domain_2_ip.dom().contains(domain),
        FakeDnsCall::Packet(packet) => asked_for(m, packet) matches Some(domain)
            && !m.domain_2_ip.dom().contains(domain),
        FakeDnsCall::Filter(_) => false,
    }
}

/// The resolver after some calls, one after the other.
pub open spec fn called_all(m: FakeDnsModel, calls: Seq<FakeDnsCall>) -> FakeDnsModel
    decreases calls.len(),
{
    if calls.len() == 0 {
        m
    } else {
        called_all(called(m, calls[0]), calls.drop_first())
    }
}

/// How many of some calls, one after the other, bring in a domain that has no address then.
pub open spec fn newcomers(m: FakeDnsModel, calls: Seq<FakeDnsCall>) -> nat
    decreases calls.len(),
{
    if calls.len() == 0 {
        0
    } else {
        newcomers(called(m, calls[0]), calls.drop_first()) + (if brings_in(m, calls[0]) {
            1nat
        } else {
            0
        })
    }
}

/// A domain keeps its address, whatever the resolver is called for, until as many domains without
/// one were brought in as there are addresses before it is the turn of its own.
pub proof fn law_addresses_stay_until_their_turn(
    m: FakeDnsModel,
    domain: Seq<char>,
    calls: Seq<FakeDnsCall>,
)
    requires
        m.wf(),
        m.domain_2_ip.dom().contains(domain),
        newcomers(m, calls) <= turns_before(m, m.domain_2_ip[domain]),
    ensures
        ({
            let n = called_all(m, calls);
            &&& n.wf()
            &&& n.domain_2_ip.dom().contains(domain)
            &&& n.domain_2_ip[domain] == m.domain_2_ip[domain]
            &&& n.ip_2_domain.dom().contains(m.domain_2_ip[domain])
            &&& n.ip_2_domain[m.domain_2_ip[domain]] == domain
        }),
    decreases calls.len(),
{
    let ip = m.domain_2_ip[domain];
    assert(m.ip_2_domain.dom().contains(ip));
    if calls.len() > 0 {
        let next = called(m, calls[0]);
        law_addresses_take_turns(m.cursor, ip);
        law_addresses_take_turns(ip, m.cursor);
        if brings_in(m, calls[0]) {
            let other = match calls[0] {
                FakeDnsCall::Resolve(d) => d,
                FakeDnsCall::Packet(packet) => asked_for(m, packet).unwrap(),
                FakeDnsCall::Filter(f) => f,
            };
            assert(next == m.allocated(other));
            law_allocation_keeps_order(m, other);
            law_domains_keep_their_addresses(m, domain, other);
        } else {
            assert(next.ip_2_domain == m.ip_2_domain && next.domain_2_ip == m.domain_2_ip);
            assert(next.cursor == m.cursor);
        }
        law_addresses_stay_until_their_turn(next, domain, calls.drop_first());
    }
}

/// A domain that gets an address keeps it while fewer domains without one are brought in than
/// there are addresses, however often others are asked for again.
pub proof fn law_fresh_addresses_last_a_round(
    m: FakeDnsModel,
    domain: Seq<char>,
    calls: Seq<FakeDnsCall>,
)
    requires
        m.wf(),
        !m.domain_2_ip.dom().contains(domain),
        newcomers(m.resolved(domain), calls) < USABLE,
    ensures
        ({
            let n = called_all(m.resolved(domain), calls);
            &&& n.wf()
            &&& n.domain_2_ip.dom().contains(domain)
            &&& n.domain_2_ip[domain] == m.cursor
            &&& n.ip_2_domain.dom().contains(m.cursor)
            &&& n.ip_2_domain[m.cursor] == domain
        }),
{
    law_allocation_keeps_order(m, domain);
    law_addresses_take_turns(m.cursor, m.cursor);
    law_addresses_stay_until_their_turn(m.resolved(domain), domain, calls);
}

/// The resolver never stops answering for a name.
pub proof fn law_names_stay_accepted(m: FakeDnsModel, calls: Seq<FakeDnsCall>, name: Seq<char>)
    requires
        m.accepts(name),
    ensures
        called_all(m, calls).accepts(name),
    decreases calls.len(),
{
    if calls.len() > 0 {
        let next = called(m, calls[0]);
        let i = choose|i: int|
            0 <= i < m.filter.len() && (text_contains(name, #[trigger] m.filter[i]) || m.filter[i]
                == "*"@);
        assert(next.filter[i] == m.filter[i]);
        law_names_stay_accepted(next, calls.drop_first(), name);
    }
}

/// Two questions for one name that the resolver answers for, the first of which brings the name
/// in, are answered with one address, and the domain is found again by it, while fewer domains
/// without an address are brought in between them than there are addresses. Each response has the
/// number of its question, and where both ask for an IPv4 address, both hold that one.
pub proof fn law_questions_again_get_the_same_address(
    m: FakeDnsModel,
    first: Seq<u8>,
    calls: Seq<FakeDnsCall>,
    second: Seq<u8>,
)
    requires
        m.wf(),
        asked_for(m, first) is Some,
        !m.domain_2_ip.dom().contains(asked_for(m, first).unwrap()),
        parsed(second) matches Some(request) && request.queries.len() > 0
            && request.queries[0].name == parsed(first).unwrap().queries[0].name && answerable(
            request.queries[0].qclass,
            request.queries[0].qtype,
        ),
        newcomers(processed(m, first), calls) < USABLE,
    ensures
        ({
            let domain = asked_for(m, first).unwrap();
            let before = called_all(processed(m, first), calls);
            let after = processed(before, second);
            let ip = processed(m, first).domain_2_ip[domain];
            let a = parsed(first).unwrap();
            let b = parsed(second).unwrap();
            let to_a = response_to(a, a.queries[0], ip);
            let to_b = response_to(b, b.queries[0], ip);
            &&& asked_for(before, second) == Some(domain)
            &&& after.domain_2_ip.dom().contains(domain)
            &&& after.domain_2_ip[domain] == ip
            &&& after.ip_2_domain.dom().contains(ip)
            &&& after.ip_2_domain[ip] == domain
            &&& usable(ip)
            &&& to_a.id == a.id && to_b.id == b.id
            &&& a.queries[0].qtype == TYPE_A && b.queries[0].qtype == TYPE_A ==> {
                &&& to_a.answers == to_b.answers
                &&& to_a.answers.len() == 1
                &&& to_a.answers[0].data == be32(ip)
            }
        }),
{
    let domain = asked_for(m, first).unwrap();
    let name = name_text(parsed(first).unwrap().queries[0].name);
    law_fresh_addresses_last_a_round(m, domain, calls);
    assert(processed(m, first).filter == m.filter);
    assert(processed(m, first).accepts(name));
    law_names_stay_accepted(processed(m, first), calls, name);
}

/// Asking for one more domain comes after asking for the others.
proof fn lemma_resolved_one_more(m: FakeDnsModel, domains: Seq<Seq<char>>, domain: Seq<char>)
    ensures
        resolved_all(m, domains.push(domain)) == resolved_all(m, domains).resolved(domain),
    decreases domains.len(),
{
    let more = domains.push(domain);
    if domains.len() == 0 {
        assert(more.drop_first() =~= domains);
        reveal_with_fuel(resolved_all, 2);
    } else {
        assert(more.drop_first() =~= domains.drop_first().push(domain));
        lemma_resolved_one_more(m.resolved(domains[0]), domains.drop_first(), domain);
    }
}

/// A resolver that has handed out no address yet.
pub open spec fn untouched(m: FakeDnsModel) -> bool {
    m.ip_2_domain == Map::<u32, Seq<char>>::empty() && m.domain_2_ip == Map::<
        Seq<char>,
        u32,
    >::empty() && m.cursor == FAKE_IP_START + 1
}

/// The address that the domain at place `i` gets when it is asked for, after those before it.
pub open spec fn given(m: FakeDnsModel, domains: Seq<Seq<char>>, i: int) -> u32 {
    resolved_all(m, domains.take(i + 1)).domain_2_ip[domains[i]]
}

/// In the first round each domain gets the address whose turn is its place.
proof fn lemma_first_round(m: FakeDnsModel, domains: Seq<Seq<char>>, n: int)
    requires
        untouched(m),
        domains.no_duplicates(),
        0 <= n <= domains.len(),
        n <= USABLE,
    ensures
        ({
            let s = resolved_all(m, domains.take(n));
            &&& s.wf()
            &&& turn(s.cursor) == (if n == USABLE {
                0
            } else {
                n
            })
            &&& forall|j: int|
                0 <= j < n ==> s.domain_2_ip.dom().contains(#[trigger] domains[j]) && turn(
                    s.domain_2_ip[domains[j]],
                ) == j
            &&& forall|d: Seq<char>| #[trigger]
                s.domain_2_ip.dom().contains(d) ==> exists|j: int|
                    0 <= j < n && #[trigger] domains[j] == d
        }),
    decreases n,
{
    let s = resolved_all(m, domains.take(n));
    if n == 0 {
        assert(s == m);
        reveal(turn);
    } else {
        let before = resolved_all(m, domains.take(n - 1));
        let domain = domains[n - 1];
        lemma_first_round(m, domains, n - 1);
        assert(domains.take(n) =~= domains.take(n - 1).push(domain));
        lemma_resolved_one_more(m, domains.take(n - 1), domain);
        if before.domain_2_ip.dom().contains(domain) {
            let j = choose|j: int| 0 <= j < n - 1 && #[trigger] domains[j] == domain;
            assert(false);
        }
        if before.ip_2_domain.dom().contains(before.cursor) {
            let holder = before.ip_2_domain[before.cursor];
            assert(before.domain_2_ip.dom().contains(holder));
            let j = choose|j: int| 0 <= j < n - 1 && #[trigger] domains[j] == holder;
            assert(turn(before.cursor) == j);
            assert(false);
        }
        law_allocation_keeps_order(before, domain);
        law_addresses_take_turns(before.cursor, before.cursor);
        assert forall|j: int| 0 <= j < n implies s.domain_2_ip.dom().contains(
            #[trigger] domains[j],
        ) && turn(s.domain_2_ip[domains[j]]) == j by {
            if j < n - 1 {
                assert(domains[j] != domain);
            }
        }
        assert forall|d: Seq<char>| #[trigger] s.domain_2_ip.dom().contains(d) implies exists|
            j: int,
        |
            0 <= j < n && #[trigger] domains[j] == d by {
            if d == domain {
                assert(domains[n - 1] == d);
            } else {
                assert(before.domain_2_ip.dom().contains(d));
                let j = choose|j: int| 0 <= j < n - 1 && #[trigger] domains[j] == d;
                assert(0 <= j < n && domains[j] == d);
            }
        }
    }
}

/// Whether the domain at place `i` has no address when it is asked for after those before it, and
/// is given the next one.
pub open spec fn gets_the_next(m: FakeDnsModel, domains: Seq<Seq<char>>, i: int) -> bool {
    let s = resolved_all(m, domains.take(i));
    &&& s.wf()
    &&& !s.domain_2_ip.dom().contains(domains[i])
    &&& resolved_all(m, domains.take(i + 1)) == s.allocated(domains[i])
    &&& given(m, domains, i) == s.cursor
}

proof fn lemma_gets_the_next(m: FakeDnsModel, domains: Seq<Seq<char>>, i: int)
    requires
        untouched(m),
        domains.no_duplicates(),
        0 <= i < domains.len(),
        i <= USABLE,
    ensures
        gets_the_next(m, domains, i),
{
    let s = resolved_all(m, domains.take(i));
    lemma_first_round(m, domains, i);
    assert(domains.take(i + 1) =~= domains.take(i).push(domains[i]));
    lemma_resolved_one_more(m, domains.take(i), domains[i]);
    if s.domain_2_ip.dom().contains(domains[i]) {
        let j = choose|j: int| 0 <= j < i && #[trigger] domains[j] == domains[i];
        assert(false);
    }
}

/// A resolver that has handed out nothing gives different domains different addresses, as many as
/// there are usable ones. The first of them is the first usable address, 192.18.0.1, and each
/// domain has its own until the round is over. The domain after that gets the first address again:
/// the first domain has none any more, and all the others keep theirs. None of the domains has an
/// address before it is asked for, so that asking for it is giving it the next one.
pub proof fn law_a_round_of_addresses(m: FakeDnsModel, domains: Seq<Seq<char>>)
    requires
        untouched(m),
        domains.no_duplicates(),
        domains.len() == USABLE + 1,
    ensures
        forall|i: int| 0 <= i <= USABLE ==> #[trigger] gets_the_next(m, domains, i),
        given(m, domains, 0) == FAKE_IP_START + 1,
        forall|i: int| 0 <= i < USABLE ==> usable(#[trigger] given(m, domains, i)),
        forall|i: int, j: int|
            0 <= i < j < USABLE ==> #[trigger] given(m, domains, i) != #[trigger] given(
                m,
                domains,
                j,
            ),
        given(m, domains, USABLE as int) == FAKE_IP_START + 1,
        !resolved_all(m, domains).domain_2_ip.dom().contains(domains[0]),
        forall|i: int|
            1 <= i < USABLE ==> resolved_all(m, domains).domain_2_ip.dom().contains(
                #[trigger] domains[i],
            ) && resolved_all(m, domains).domain_2_ip[domains[i]] == given(m, domains, i),
{
    let last = USABLE as int;
    let round = resolved_all(m, domains.take(last));
    let end = resolved_all(m, domains);
    assert(usable(m.cursor));
    assert forall|i: int| 0 <= i <= USABLE implies #[trigger] gets_the_next(m, domains, i) by {
        lemma_gets_the_next(m, domains, i);
    }
    assert(turn(m.cursor) == 0) by {
        reveal(turn);
    }
    assert forall|i: int| 0 <= i < USABLE implies usable(#[trigger] given(m, domains, i)) && turn(
        given(m, domains, i),
    ) == i by {
        let s = resolved_all(m, domains.take(i + 1));
        lemma_first_round(m, domains, i + 1);
        assert(s.domain_2_ip.dom().contains(domains[i]));
        assert(s.ip_2_domain.dom().contains(s.domain_2_ip[domains[i]]));
    }
    assert(turn(given(m, domains, 0)) == 0);
    law_addresses_take_turns(given(m, domains, 0), m.cursor);
    lemma_first_round(m, domains, last);
    law_addresses_take_turns(round.cursor, m.cursor);
    assert(round.cursor == m.cursor);
    assert(domains =~= domains.take(last).push(domains[last]));
    assert(domains.take(last + 1) =~= domains);
    lemma_resolved_one_more(m, domains.take(last), domains[last]);
    if round.domain_2_ip.dom().contains(domains[last]) {
        let j = choose|j: int| 0 <= j < last && #[trigger] domains[j] == domains[last];
        assert(false);
    }
    assert(end == round.allocated(domains[last]));
    let first_ip = round.domain_2_ip[domains[0]];
    assert(round.domain_2_ip.dom().contains(domains[0]));
    assert(round.ip_2_domain.dom().contains(first_ip));
    law_addresses_take_turns(first_ip, m.cursor);
    assert(round.ip_2_domain[round.cursor] == domains[0]);
    assert(domains[0] != domains[last]);
    assert forall|i: int| 1 <= i < USABLE implies end.domain_2_ip.dom().contains(
        #[trigger] domains[i],
    ) && end.domain_2_ip[domains[i]] == given(m, domains, i) by {
        assert(domains[i] != domains[0] && domains[i] != domains[last]);
        assert(round.domain_2_ip.dom().contains(domains[i]));
        assert(round.ip_2_domain.dom().contains(round.domain_2_ip[domains[i]]));
        assert(turn(given(m, domains, i)) == i);
        law_addresses_take_turns(round.domain_2_ip[domains[i]], given(m, domains, i));
    }
}

/// Every response that the resolver makes says that there was no error, whatever was asked for: it
/// is a response, with the number of the request and exactly the question that was asked. It holds
/// one answer where an IPv4 address was asked for, that address for the name of the question, to be
/// kept for a second; and none otherwise. Whether recursion is wanted or there is repeated where
/// the request is a query of the usual kind.
pub proof fn law_responses_say_no_error(request: MessageModel, query: QueryModel, ip: u32)
    ensures
        ({
            let r = response_to(request, query, ip);
            &&& r.response
            &&& r.response_code == 0
            &&& r.id == request.id
            &&& r.op_code == request.op_code
            &&& r.queries == seq![query]
            &&& r.options.len() == 0 && r.rest.len() == 0
            &&& r.answers.len() == (if query.qtype == 1 {
                1nat
            } else {
                0
            })
            &&& query.qtype == 1 ==> {
                let answer = r.answers[0];
                &&& answer.name == query.name
                &&& answer.rtype == 1 && answer.class == 1
                &&& answer.ttl == 1
                &&& answer.data.len() == 4 && be(answer.data) == ip
            }
            &&& request.op_code == 0 ==> r.recursion_desired == request.recursion_desired
                && r.recursion_available == request.recursion_available
            &&& request.op_code != 0 ==> !r.recursion_desired && !r.recursion_available
        }),
{
    law_be32_reads_back(ip);
}

/// The resolver answers a packet exactly where it holds a message whose first question is of the
/// Internet, for an IPv4 address, an IPv6 address or a service binding, and for a name that is
/// accepted. The domain is that name, without the dot of the root where it ends there.
pub proof fn law_accepted_questions_are_answered(m: FakeDnsModel, packet: Seq<u8>)
    ensures
        ({
            let request = parsed(packet).unwrap();
            let query = request.queries[0];
            let name = name_text(query.name);
            let ours = parsed(packet) is Some && request.queries.len() > 0 && query.qclass == 1 && (
            query.qtype == 1 || query.qtype == 28 || query.qtype == 65) && m.accepts(name);
            &&& asked_for(m, packet) is Some <==> ours
            &&& asked_for(m, packet) matches Some(domain) ==> {
                &&& !query.name.fqdn ==> domain == name
                &&& query.name.fqdn && name.len() > 0 ==> domain.push(name.last()) == name
            }
            &&& !ours ==> processed(m, packet) == m
        }),
{
    if let Some(domain) = asked_for(m, packet) {
        let name = name_text(parsed(packet).unwrap().queries[0].name);
        if name.len() > 0 {
            assert(name.drop_last().push(name.last()) =~= name);
        }
    }
}

/// A filter makes the resolver answer for every name in which it stands, wherever that is, and
/// takes nothing back; a star makes it answer for every name.
pub proof fn law_filters_accept_names(
    m: FakeDnsModel,
    filter: Seq<char>,
    before: Seq<char>,
    behind: Seq<char>,
    name: Seq<char>,
)
    ensures
        ({
            let n = FakeDnsModel { filter: m.filter.push(filter), ..m };
            &&& n.accepts(before + filter + behind)
            &&& m.accepts(name) ==> n.accepts(name)
            &&& filter.len() == 1 && filter[0] == '*' ==> n.accepts(name)
        }),
{
    let n = FakeDnsModel { filter: m.filter.push(filter), ..m };
    let last = m.filter.len() as int;
    let whole = before + filter + behind;
    let at = before.len() as int;
    assert(n.filter[last] == filter);
    assert(whole.subrange(at, at + filter.len()) =~= filter);
    assert(text_contains(whole, n.filter[last]));
    if m.accepts(name) {
        let i = choose|i: int|
            0 <= i < m.filter.len() && (text_contains(name, #[trigger] m.filter[i]) || m.filter[i]
                == "*"@);
        assert(n.filter[i] == m.filter[i]);
    }
    if filter.len() == 1 && filter[0] == '*' {
        reveal_strlit("*");
        assert(filter =~= "*"@);
        assert(n.filter[last] == "*"@);
    }
}

/// The resolver answers for no name but one in which some filter stands, unless there is a star:
/// without filters it answers for none.
pub proof fn law_nothing_else_is_accepted(m: FakeDnsModel, name: Seq<char>)
    requires
        forall|i: int|
            #![trigger m.filter[i]]
            0 <= i < m.filter.len() ==> !(m.filter[i].len() == 1 && m.filter[i][0] == '*') && (
            forall|at: int|
                0 <= at <= name.len() - m.filter[i].len() ==> #[trigger] name.subrange(
                    at,
                    at + m.filter[i].len(),
                ) != m.filter[i]),
    ensures
        !m.accepts(name),
{
    reveal_strlit("*");
}

/// The addresses that are handed out are those of 192.18.0.0/16 whose last byte is neither 0 nor
/// 255, and each is followed by the next of them: none lies between the two, and from the last one
/// it goes back to the first.
pub proof fn law_no_address_is_passed_over(ip: u32, between: u32)
    requires
        usable(ip),
    ensures
        usable(between) <==> 0xC012_0000 <= between <= 0xC012_FFFF && between % 256 != 0 && between
            % 256 != 255,
        usable(next_usable(ip)),
        ip < next_usable(ip) && ip < between < next_usable(ip) ==> !usable(between),
        next_usable(ip) <= ip ==> next_usable(ip) == 0xC012_0001 && ip == 0xC012_FFFE,
        ip == 0xC012_FFFE ==> next_usable(ip) == 0xC012_0001,
{
}

/// Resolving a domain that has an address changes nothing. One that has none gets the address
/// whose turn it is, which is taken from the domain that had it, if one had; then it is the turn of
/// the next address. Every other domain and every other address stays as it was, and so do the
/// filters.
pub proof fn law_resolving_gives_one_address(
    m: FakeDnsModel,
    domain: Seq<char>,
    other: Seq<char>,
    ip: u32,
)
    requires
        m.wf(),
        other != domain,
        ip != m.cursor,
    ensures
        ({
            let n = m.resolved(domain);
            let evicted = m.ip_2_domain.dom().contains(m.cursor) && m.ip_2_domain[m.cursor]
                == other;
            &&& n.filter == m.filter
            &&& m.domain_2_ip.dom().contains(domain) ==> n == m
            &&& !m.domain_2_ip.dom().contains(domain) ==> {
                &&& n.domain_2_ip.dom().contains(domain) && n.domain_2_ip[domain] == m.cursor
                &&& n.ip_2_domain.dom().contains(m.cursor) && n.ip_2_domain[m.cursor] == domain
                &&& n.cursor != m.cursor && usable(n.cursor)
                &&& n.ip_2_domain.dom().contains(ip) == m.ip_2_domain.dom().contains(ip)
                &&& m.ip_2_domain.dom().contains(ip) ==> n.ip_2_domain[ip] == m.ip_2_domain[ip]
                &&& n.domain_2_ip.dom().contains(other) <==> m.domain_2_ip.dom().contains(other)
                    && !evicted
                &&& n.domain_2_ip.dom().contains(other) ==> n.domain_2_ip[other]
                    == m.domain_2_ip[other]
            }
        }),
{
    law_addresses_take_turns(m.cursor, m.cursor);
}

/// The cursor tries the three addresses behind it, one after the other and from the end of the
/// range on at its start, and stops at the first that is neither the first nor the last of its
/// block. Where all three are, it stays at the third and says so.
pub proof fn law_the_cursor_stops_at_the_first_address_that_will_do(
    cursor: u32,
    start: u32,
    end: u32,
    one: int,
    two: int,
    three: int,
)
    requires
        start <= cursor < end,
        one == (if cursor + 1 < end {
            cursor + 1
        } else {
            start as int
        }),
        two == (if one + 1 < end {
            one + 1
        } else {
            start as int
        }),
        three == (if two + 1 < end {
            two + 1
        } else {
            start as int
        }),
    ensures
        ({
            let (next, ok) = next_cursor(cursor, start, end);
            let one_will_do = 0 < one % 256 < 255;
            let two_will_do = 0 < two % 256 < 255;
            &&& one_will_do ==> next == one
            &&& !one_will_do && two_will_do ==> next == two
            &&& !one_will_do && !two_will_do ==> next == three
            &&& ok <==> 0 < next % 256 < 255
        }),
{
}

} // verus!
