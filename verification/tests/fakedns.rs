use rtun::addr::{IpAddr, SocketAddr};
use rtun::dns_proxy::{
    AfterSend, DnsProxy, DnsSession, DnsTable, SendFut, SendOutcome, SendState, UdpPeer,
    UpstreamChoice, NANOS_PER_SEC,
};
use rtun::fakedns::{
    prepare_next_cursor, DNSProcessResult, FakeDNS, NoCursor, FAKE_IP_END, FAKE_IP_START, USABLE,
};
use rtun::socks5::Socks5Addr;
use rtun::tcp::{route, Route, TcpHandle};
use rtun::udp::{handle_dns, DnsStep, UdpHandle, UdpRoute};
use trust_dns_proto::op::{Edns, Message, MessageType, OpCode, Query, ResponseCode};
use trust_dns_proto::rr::rdata::opt::EdnsOption;
use trust_dns_proto::rr::{DNSClass, Name, RData, RecordType};

fn v4(ip: u32, port: u16) -> SocketAddr {
    SocketAddr { ip: IpAddr::V4(ip), port }
}

fn question(id: u16, name: &str, kind: RecordType) -> Vec<u8> {
    let mut message = Message::new();
    message.set_id(id).set_recursion_desired(true);
    message.add_query(Query::query(Name::from_ascii(name).unwrap(), kind));
    message.to_vec().unwrap()
}

fn response(dns: &mut FakeDNS, packet: &[u8]) -> Message {
    match dns.process_dns_packet(packet) {
        Ok(DNSProcessResult::Response(bytes)) => Message::from_vec(&bytes).unwrap(),
        _ => panic!("the resolver answers this"),
    }
}

fn goes_upstream(dns: &mut FakeDNS, packet: &[u8]) -> bool {
    matches!(dns.process_dns_packet(packet), Ok(DNSProcessResult::Upstream))
}

#[test]
fn answers_with_an_address_of_the_range() {
    let mut dns = FakeDNS::new();
    dns.add_filter("example");
    let answer = response(&mut dns, &question(77, "www.example.com.", RecordType::A));
    assert_eq!(answer.id(), 77);
    assert_eq!(answer.message_type(), MessageType::Response);
    assert_eq!(answer.response_code(), ResponseCode::NoError);
    assert!(answer.recursion_desired());
    assert!(!answer.recursion_available());
    assert_eq!(answer.queries().len(), 1);
    assert_eq!(answer.answers().len(), 1);
    let record = &answer.answers()[0];
    assert_eq!(record.ttl(), 1);
    assert_eq!(record.dns_class(), DNSClass::IN);
    assert_eq!(record.name().to_ascii(), "www.example.com.");
    match record.data() {
        Some(RData::A(a)) => assert_eq!(a.0.octets(), [192, 18, 0, 1]),
        _ => panic!("an address was asked for"),
    }
    assert_eq!(dns.query_ip("www.example.com"), Some(0xc012_0001));
    assert_eq!(dns.query_domain(0xc012_0001), Some("www.example.com".to_string()));
    assert_eq!(dns.query_domain(0xc012_0002), None);
    assert_eq!(dns.query_ip("example.com"), None);
}

#[test]
fn asking_again_gives_the_same_address() {
    let mut dns = FakeDNS::new();
    dns.add_filter("*");
    assert_eq!(dns.resolve("a"), 0xc012_0001);
    assert_eq!(dns.resolve("b"), 0xc012_0002);
    assert_eq!(dns.resolve("a"), 0xc012_0001);
    assert_eq!(dns.resolve("c"), 0xc012_0003);
}

#[test]
fn other_kinds_are_answered_without_an_address() {
    let mut dns = FakeDNS::new();
    dns.add_filter("*");
    for kind in [RecordType::AAAA, RecordType::HTTPS] {
        let answer = response(&mut dns, &question(1, "a.b.", kind));
        assert_eq!(answer.answers().len(), 0);
        assert_eq!(answer.queries()[0].query_type(), kind);
    }
    assert_eq!(dns.query_ip("a.b"), Some(0xc012_0001));
}

#[test]
fn what_is_not_answered_goes_upstream() {
    let mut dns = FakeDNS::new();
    dns.add_filter("example");
    assert!(goes_upstream(&mut dns, &question(1, "www.other.com.", RecordType::A)));
    assert!(goes_upstream(&mut dns, &question(1, "www.example.com.", RecordType::MX)));
    assert!(goes_upstream(&mut dns, &[1, 2, 3]));
    assert!(goes_upstream(&mut dns, &Message::new().to_vec().unwrap()));
    let mut message = Message::new();
    let mut query = Query::query(Name::from_ascii("www.example.com.").unwrap(), RecordType::A);
    query.set_query_class(DNSClass::CH);
    message.add_query(query);
    assert!(goes_upstream(&mut dns, &message.to_vec().unwrap()));
    assert_eq!(dns.query_ip("www.example.com"), None);
}

#[test]
fn flags_are_copied_for_questions_only() {
    let mut dns = FakeDNS::new();
    dns.add_filter("*");
    let mut message = Message::new();
    message.set_recursion_desired(true).set_recursion_available(true);
    message.add_query(Query::query(Name::from_ascii("a.").unwrap(), RecordType::A));
    let answer = response(&mut dns, &message.to_vec().unwrap());
    assert!(answer.recursion_desired() && answer.recursion_available());
    message.set_op_code(OpCode::Status);
    let answer = response(&mut dns, &message.to_vec().unwrap());
    assert_eq!(answer.op_code(), OpCode::Status);
    assert!(!answer.recursion_desired() && !answer.recursion_available());
}

#[test]
fn filters() {
    let mut dns = FakeDNS::new();
    assert!(!dns.accept("google.com."));
    dns.add_filter("goo");
    assert!(dns.accept("www.google.com."));
    assert!(!dns.accept("www.gogle.com."));
    dns.add_filter("*");
    assert!(dns.accept("anything."));
}

#[test]
fn answers_by_plain_values() {
    let mut dns = FakeDNS::new();
    dns.add_filter("a");
    assert_eq!(dns.answer(1, 1, "a.b.", true), Some(0xc012_0001));
    assert_eq!(dns.answer(1, 28, "a.b", false), Some(0xc012_0001));
    assert_eq!(dns.answer(1, 15, "a.b.", true), None);
    assert_eq!(dns.answer(3, 1, "a.b.", true), None);
    assert_eq!(dns.answer(1, 1, "c.d.", true), None);
}

#[test]
fn addresses_take_turns() {
    let mut dns = FakeDNS::new();
    let mut last = 0;
    let mut given = std::collections::HashSet::new();
    for i in 0..USABLE {
        last = dns.resolve(&format!("d{}", i));
        assert!(last % 256 != 0 && last % 256 != 255);
        assert!(given.insert(last));
    }
    assert_eq!(dns.query_ip("d0"), Some(FAKE_IP_START + 1));
    assert_eq!(last, 0xc012_fffe);
    assert_eq!(dns.query_ip("d254"), Some(FAKE_IP_START + 0x101));
    // The first address is handed out again, and its domain forgotten.
    assert_eq!(dns.resolve("again"), FAKE_IP_START + 1);
    assert_eq!(dns.query_ip("d0"), None);
    assert_eq!(dns.query_domain(FAKE_IP_START + 1), Some("again".to_string()));
    assert_eq!(dns.query_ip("d1"), Some(FAKE_IP_START + 2));
    assert_eq!(dns.query_ip("d65023"), Some(0xc012_fffe));
}

#[test]
fn asking_often_uses_no_addresses_up() {
    let mut dns = FakeDNS::new();
    dns.add_filter("kept");
    let first = response(&mut dns, &question(1, "kept.", RecordType::A));
    for _ in 0..USABLE {
        dns.resolve("other");
        dns.resolve("kept");
    }
    for i in 2..USABLE {
        dns.resolve(&i.to_string());
    }
    let second = response(&mut dns, &question(2, "kept.", RecordType::A));
    assert_eq!((first.id(), second.id()), (1, 2));
    assert_eq!(first.answers().len(), 1);
    assert_eq!(first.answers(), second.answers());
    assert_eq!(dns.query_domain(FAKE_IP_START + 1), Some("kept".to_string()));
    assert!(dns.is_fake_ip(v4(FAKE_IP_START + 1, 9)));
}

#[test]
fn allocation_gives_the_next_address() {
    let mut dns = FakeDNS::new();
    let mut given = std::collections::HashSet::new();
    for i in 0..USABLE {
        assert!(given.insert(dns.alloc_fake_ip(&i.to_string())));
    }
    assert_eq!(dns.query_ip("0"), Some(FAKE_IP_START + 1));
    assert_eq!(dns.alloc_fake_ip("again"), FAKE_IP_START + 1);
    assert_eq!(dns.query_ip("0"), None);
    assert_eq!(dns.query_ip("1"), Some(FAKE_IP_START + 2));
}

fn moved(mut cursor: u32, start: u32, end: u32) -> (u32, Result<(), NoCursor>) {
    let result = prepare_next_cursor(&mut cursor, start, end);
    (cursor, result)
}

#[test]
fn cursor_passes_over_the_edges_of_blocks() {
    assert_eq!(moved(FAKE_IP_START, FAKE_IP_START, FAKE_IP_END), (FAKE_IP_START + 1, Ok(())));
    assert_eq!(moved(0xc012_0001, FAKE_IP_START, FAKE_IP_END), (0xc012_0002, Ok(())));
    assert_eq!(moved(0xc012_00fe, FAKE_IP_START, FAKE_IP_END), (0xc012_0101, Ok(())));
    assert_eq!(moved(0xc012_fffe, FAKE_IP_START, FAKE_IP_END), (0xc012_0001, Ok(())));
    assert_eq!(moved(0x0a00_0005, 0x0a00_0003, 0x0a00_0006), (0x0a00_0003, Ok(())));
}

#[test]
fn cursor_gives_up_after_three_addresses() {
    assert_eq!(moved(0, 0, 1), (0, Err(NoCursor)));
    assert_eq!(moved(0x1ff, 0x1ff, 0x201), (0x200, Err(NoCursor)));
}

#[test]
fn fake_addresses() {
    let mut dns = FakeDNS::new();
    let ip = dns.resolve("a");
    assert!(dns.is_fake_ip(v4(ip, 80)));
    assert!(!dns.is_fake_ip(v4(ip + 1, 80)));
    assert!(!dns.is_fake_ip(SocketAddr { ip: IpAddr::V6(ip as u128), port: 80 }));
}

#[test]
fn fake_destinations_go_by_the_proxy() {
    let mut dns = FakeDNS::new();
    let ip = dns.resolve("example.com");
    match route(&dns, v4(ip, 443)) {
        Route::Socks5(Socks5Addr::Domain(domain, port)) => {
            assert_eq!((domain.as_str(), port), ("example.com", 443))
        }
        _ => panic!("the address was made up"),
    }
    assert!(matches!(route(&dns, v4(ip + 1, 443)), Route::Direct(_)));
    let v6 = SocketAddr { ip: IpAddr::V6(ip as u128), port: 443 };
    assert!(matches!(route(&dns, v6), Route::Direct(d) if d == v6));
}

#[test]
fn connections_are_kept_by_both_ends() {
    let mut connects: TcpHandle<&str> = TcpHandle::new();
    connects.connected(v4(1, 1), v4(2, 2), "first");
    connects.connected(v4(1, 1), v4(3, 3), "second");
    connects.connected(v4(1, 1), v4(2, 2), "third");
    assert_eq!(connects.len(), 2);
    let mut handles: Vec<&str> = (0..connects.len()).map(|i| *connects.handle(i)).collect();
    handles.sort();
    assert_eq!(handles, vec!["second", "third"]);
    connects.disconnected(v4(1, 1), v4(2, 2));
    connects.disconnected(v4(9, 9), v4(9, 9));
    assert_eq!(connects.len(), 1);
    assert_eq!(*connects.handle(0), "second");
}

#[test]
fn datagrams_are_told_apart() {
    let mut handle: UdpHandle<u8> = UdpHandle::new();
    assert_eq!(handle.route(v4(1, 1), v4(8, 53)), UdpRoute::Dns);
    assert_eq!(handle.route(v4(1, 1), v4(8, 443)), UdpRoute::Open);
    handle.opened(v4(1, 1), 7);
    assert_eq!(handle.route(v4(1, 1), v4(8, 443)), UdpRoute::Forward);
    assert_eq!(handle.route(v4(1, 1), v4(8, 53)), UdpRoute::Dns);
    assert_eq!(handle.route(v4(1, 2), v4(8, 443)), UdpRoute::Open);
    assert_eq!(handle.session(v4(1, 1)), Some(&7));
    assert_eq!(handle.len(), 1);
    handle.closed(v4(1, 1));
    assert_eq!(handle.route(v4(1, 1), v4(8, 443)), UdpRoute::Open);
    assert_eq!(handle.session(v4(1, 1)), None);
}

#[test]
fn questions_in_datagrams() {
    let mut dns = FakeDNS::new();
    dns.add_filter("example");
    let (asker, resolver) = (v4(1, 1000), v4(8, 53));
    let packet = question(5, "example.com.", RecordType::A);
    match handle_dns(&mut dns, &packet, asker, resolver) {
        DnsStep::Reply { data, from, to } => {
            assert_eq!(Message::from_vec(&data).unwrap().id(), 5);
            assert_eq!((from, to), (resolver, asker));
        }
        _ => panic!("the resolver answers this"),
    }
    let packet = question(5, "other.com.", RecordType::A);
    assert!(matches!(handle_dns(&mut dns, &packet, asker, resolver), DnsStep::Proxy));
}

fn peer() -> UdpPeer {
    UdpPeer { src: v4(1, 1000), dest: v4(8, 53) }
}

#[test]
fn answers_come_back_under_the_old_number() {
    let mut table = DnsTable::new();
    let mut sender = SendFut::new();
    assert_eq!(table.take_id(), 1);
    let id = table.take_id();
    assert_eq!(id, 2);
    assert!(sender.begin(peer(), &question(4242, "a.b.", RecordType::A), id, 0));
    let sent = match sender.unsent() {
        Some((bytes, dest)) => {
            assert_eq!(dest, peer().dest);
            bytes.to_vec()
        }
        None => panic!("the question has to be sent"),
    };
    assert_eq!(Message::from_vec(&sent).unwrap().id(), 2);
    assert_eq!(sender.after_send(SendOutcome::WouldBlock), AfterSend::Pending);
    assert_eq!(sender.after_send(SendOutcome::Sent(3)), AfterSend::Pending);
    assert_eq!(sender.unsent().unwrap().0, &sent[3..]);
    assert_eq!(sender.after_send(SendOutcome::Sent(sent.len() - 3)), AfterSend::Keep);
    assert!(sender.unsent().is_none());
    sender.keep(&mut table);
    assert!(matches!(sender.state(), SendState::Begin));

    assert!(table.on_reply(&question(3, "a.b.", RecordType::A)).is_none());
    assert!(table.on_reply(&[0]).is_none());
    let relayed = table.on_reply(&sent).unwrap();
    assert_eq!(Message::from_vec(&relayed.data).unwrap().id(), 4242);
    assert_eq!(relayed.data, question(4242, "a.b.", RecordType::A));
    assert_eq!((relayed.from, relayed.to), (peer().dest, peer().src));
    assert!(table.on_reply(&sent).is_none());
}

fn question_with_options(id: u16, codes: &[u16]) -> Message {
    let mut edns = Edns::new();
    edns.set_max_payload(1232).set_dnssec_ok(true);
    for code in codes {
        edns.options_mut().insert(EdnsOption::Unknown(*code, vec![*code as u8; 5]));
    }
    let mut message = Message::new();
    message.set_id(id);
    message.add_query(Query::query(Name::from_ascii("a.b.").unwrap(), RecordType::A));
    message.set_edns(edns);
    message
}

fn sent_as(packet: &[u8], id: u16) -> Vec<u8> {
    let mut sender = SendFut::new();
    assert!(sender.begin(peer(), packet, id, 0));
    sender.unsent().unwrap().0.to_vec()
}

#[test]
fn options_go_on_in_any_order() {
    let codes = [10, 12, 20, 30, 40, 50];
    let packet = question_with_options(7, &codes).to_vec().unwrap();
    let mut expected = Message::from_vec(&packet).unwrap();
    expected.set_id(9);
    for _ in 0..8 {
        let sent = sent_as(&packet, 9);
        assert_eq!(sent.len(), packet.len());
        assert_eq!(&sent[..2], &[0, 9]);
        assert_eq!(&Message::from_vec(&sent).unwrap(), &expected);
    }
}

#[test]
fn one_option_goes_on_as_it_came() {
    let packet = question_with_options(7, &[10]).to_vec().unwrap();
    for _ in 0..8 {
        assert_eq!(sent_as(&packet, 9), question_with_options(9, &[10]).to_vec().unwrap());
    }
    let packet = question_with_options(7, &[]).to_vec().unwrap();
    assert_eq!(sent_as(&packet, 9), question_with_options(9, &[]).to_vec().unwrap());
}

#[test]
fn packets_that_hold_no_question_are_passed_over() {
    let mut sender = SendFut::new();
    assert!(!sender.begin(peer(), &[1, 2], 1, 0));
    assert!(matches!(sender.state(), SendState::Begin));
}

#[test]
fn failed_sending_stops() {
    let mut sender = SendFut::new();
    assert!(sender.begin(peer(), &question(1, "a.", RecordType::A), 1, 0));
    assert_eq!(sender.after_send(SendOutcome::Pending), AfterSend::Pending);
    assert_eq!(sender.after_send(SendOutcome::Failed), AfterSend::Stop);
}

#[test]
fn numbers_wrap_around() {
    let mut table = DnsTable::new();
    for i in 1..=65535u32 {
        assert_eq!(table.take_id() as u32, i);
    }
    assert_eq!(table.take_id(), 0);
    assert_eq!(table.take_id(), 1);
}

#[test]
fn old_questions_expire() {
    let mut table = DnsTable::new();
    for (id, time) in [(1, 0), (2, NANOS_PER_SEC), (3, 2 * NANOS_PER_SEC), (4, 100 * NANOS_PER_SEC)]
    {
        table.insert(DnsSession { peer: peer(), old_id: 0, id, time });
    }
    // Six whole seconds are more than five; five and a half are not.
    table.expire(7 * NANOS_PER_SEC + NANOS_PER_SEC / 2, 5);
    assert!(table.take_session(1).is_none());
    assert!(table.take_session(2).is_none());
    assert_eq!(table.take_session(3).unwrap().id, 3);
    assert_eq!(table.take_session(4).unwrap().id, 4);
}

#[test]
fn sockets_take_turns() {
    let mut proxy = DnsProxy::new();
    for _ in 0..8 {
        assert_eq!(proxy.send(), UpstreamChoice::New);
    }
    for i in 0..20 {
        assert_eq!(proxy.send(), UpstreamChoice::Existing(i % 8));
    }
}

#[test]
fn addresses_last_a_round() {
    let mut dns = FakeDNS::new();
    let ip = dns.resolve("kept");
    for i in 1..USABLE {
        dns.resolve(&i.to_string());
    }
    assert_eq!(dns.query_ip("kept"), Some(ip));
    assert_eq!(dns.query_domain(ip), Some("kept".to_string()));
    dns.resolve("one more");
    assert_eq!(dns.query_ip("kept"), None);
    assert_eq!(dns.query_domain(ip), Some("one more".to_string()));
}

#[test]
fn connections_and_sessions_are_counted() {
    let mut connections = TcpHandle::new();
    connections.connected(v4(1, 1), v4(2, 2), "a");
    connections.connected(v4(1, 1), v4(2, 2), "b");
    connections.connected(v4(1, 1), v4(2, 3), "c");
    assert_eq!(connections.len(), 2);
    connections.disconnected(v4(1, 1), v4(2, 2));
    assert_eq!(connections.len(), 1);
    let mut sessions = UdpHandle::new();
    sessions.opened(v4(1, 1), 1);
    sessions.opened(v4(1, 1), 2);
    assert_eq!(sessions.len(), 1);
    sessions.closed(v4(1, 2));
    assert_eq!(sessions.len(), 1);
    assert!(DnsProxy::new().can_send());
}
