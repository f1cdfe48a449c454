use hickory_resolver::proto::op::{Message, MessageType, OpCode, Query, ResponseCode};
use hickory_resolver::proto::rr::{DNSClass, Name, RecordType};
use rtun::addr::{IpAddr, SocketAddr};
use rtun::fake_dns::cidr_cache::{BadLine, CidrCache};
use rtun::fake_dns::client_cache::{
    DnsClientCache, DnsKey, Lookup, LookupEvent, LookupStep,
};
use rtun::fake_dns::options::{ConnectOptions, TcpOptions, UdpSocketOpts};
use rtun::fake_dns::processor::MessageProcessor;
use rtun::fake_dns::server::{
    DnsServerBuilder, ServerPlan, StreamStep, TcpServer, UdpServer, DEFAULT_TIMEOUT_NANOS,
};
use rtun::fake_dns::upstream::{
    decode, encode, frame, frame_len, still_connected, CodecError,
};

fn addr(port: u16) -> SocketAddr {
    SocketAddr { ip: IpAddr::V4(0x0808_0808), port }
}

fn question() -> Message {
    let mut message = Message::new();
    message.set_id(99).set_recursion_desired(true);
    message.add_query(Query::query(Name::from_ascii("a.b.").unwrap(), RecordType::A));
    message.add_query(Query::query(Name::from_ascii("c.d.").unwrap(), RecordType::MX));
    message
}

#[test]
fn networks_of_lines() {
    let mut cache = CidrCache::new();
    let lines: Vec<String> =
        ["10.1.0.0/16", "171.212.0.0/16", "2001:db8::/32"].iter().map(|s| s.to_string()).collect();
    assert_eq!(cache.load_lines(&lines), Ok(()));
    assert!(cache.contains_ipv4net(u32::from_be_bytes([171, 212, 241, 127])));
    assert!(cache.contains_ipv4net(u32::from_be_bytes([10, 1, 255, 255])));
    assert!(!cache.contains_ipv4net(u32::from_be_bytes([10, 2, 0, 0])));
    assert!(cache.contains_ipv6net(&"2001:db8:1::/48".parse().unwrap()));
    assert!(!cache.contains_ipv6net(&"2001::/16".parse().unwrap()));
}

#[test]
fn networks_do_not_grow_together() {
    let mut cache = CidrCache::new();
    cache.add_ipv6("2001:db8::/33".parse().unwrap());
    cache.add_ipv6("2001:db8:8000::/33".parse().unwrap());
    assert!(!cache.contains_ipv6net(&"2001:db8::/32".parse().unwrap()));
    cache.add_ipv6("2001:db8::/32".parse().unwrap());
    assert!(cache.contains_ipv6net(&"2001:db8::/32".parse().unwrap()));
}

#[test]
fn networks_inside_others_change_nothing() {
    let mut cache = CidrCache::new();
    cache.add_ipv4("10.0.0.0/8".parse().unwrap());
    cache.add_ipv4("10.1.0.0/16".parse().unwrap());
    assert!(cache.contains_ipv4net(0x0a01_0203));
    assert!(cache.contains_ipv4net(0x0aff_0203));
    assert!(!cache.contains_ipv4net(0x0b01_0203));
    cache.add_ipv6("2001:db8::/32".parse().unwrap());
    cache.add_ipv6("2001:db8:1::/48".parse().unwrap());
    assert!(cache.contains_ipv6net(&"2001:db8:2::/48".parse().unwrap()));
    assert!(!cache.contains_ipv6net(&"2001:db9::/32".parse().unwrap()));
}

#[test]
fn everything_is_a_network_too() {
    let mut cache = CidrCache::new();
    cache.add_ipv4("1.2.3.0/24".parse().unwrap());
    assert!(!cache.contains_ipv4net(0));
    cache.add_ipv4("0.0.0.0/0".parse().unwrap());
    assert!(cache.contains_ipv4net(0));
    assert!(cache.contains_ipv4net(u32::MAX));
}

#[test]
fn bad_lines_stop_the_loading() {
    let mut cache = CidrCache::new();
    let lines: Vec<String> =
        ["10.0.0.0/8", "10.0.0.0/33", "11.0.0.0/8"].iter().map(|s| s.to_string()).collect();
    assert_eq!(cache.load_lines(&lines), Err(BadLine));
    assert!(cache.contains_ipv4net(0x0a00_0001));
    assert!(!cache.contains_ipv4net(0x0b00_0001));
    assert_eq!(cache.add_line("::1"), Err(BadLine));
    assert_eq!(cache.add_line("::1/128"), Ok(()));
}

#[test]
fn default_options() {
    let opts = ConnectOptions::default();
    assert_eq!(opts.bind_local_addr, Some(SocketAddr { ip: IpAddr::V4(0), port: 0 }));
    assert!(opts.fwmark.is_none() && opts.bind_interface.is_none());
    assert!(opts.tcp_opts.is_none() && opts.udp_opts.is_none());
    let tcp = TcpOptions::default();
    assert_eq!((tcp.send_buf_size, tcp.recv_buf_size), (None, None));
    assert!(!tcp.nodelay && !tcp.fastopen);
    let udp = UdpSocketOpts::default();
    assert!(udp.mtu.is_none() && !udp.allow_fragmentation);
}

#[test]
fn questions_are_echoed() {
    let answer = MessageProcessor::new(question()).process();
    assert_eq!(answer.id(), 99);
    assert_eq!(answer.message_type(), MessageType::Query);
    assert!(answer.recursion_desired());
    assert_eq!(answer.response_code(), ResponseCode::NoError);
    assert_eq!(answer.queries(), question().queries());
}

#[test]
fn classes_make_no_difference() {
    let mut message = question();
    message.queries_mut()[0].set_query_class(DNSClass::CH);
    assert_eq!(MessageProcessor::new(message).process().queries().len(), 2);
}

#[test]
fn anything_else_is_not_implemented() {
    let mut message = question();
    message.set_op_code(OpCode::Update);
    let answer = MessageProcessor::new(message).process();
    assert_eq!(answer.response_code(), ResponseCode::NotImp);
    assert_eq!(answer.op_code(), OpCode::Update);
    assert!(answer.queries().is_empty());
    let mut message = question();
    message.set_message_type(MessageType::Response);
    let answer = MessageProcessor::new(message).process();
    assert_eq!(answer.response_code(), ResponseCode::NotImp);
    assert_eq!(answer.message_type(), MessageType::Response);
    assert!(answer.queries().is_empty());
}

#[test]
fn frames() {
    assert_eq!(frame(b"abc"), b"\x00\x03abc");
    assert_eq!(frame(b""), b"\x00\x00");
    assert_eq!(frame_len([1, 2]), 258);
    let long = vec![7u8; 0x1_0005];
    assert_eq!(&frame(&long)[..3], &[0, 5, 7]);
}

#[test]
fn messages_are_passed_on() {
    let packet = encode(&question()).unwrap();
    assert_eq!(packet, question().to_vec().unwrap());
    assert_eq!(decode(&packet).unwrap().queries(), question().queries());
    assert_eq!(decode(&[1, 2, 3]).err(), Some(CodecError::Decode));
}

#[test]
fn connections_that_are_still_there() {
    assert!(still_connected(1, false));
    assert!(!still_connected(0, true));
    assert!(still_connected(-1, true));
    assert!(!still_connected(-1, false));
}

#[test]
fn clients_are_used_again_in_order() {
    let mut cache: DnsClientCache<&str> = DnsClientCache::new(5, 2);
    assert_eq!(cache.timeout(), 5);
    let (tcp, udp) = (DnsKey::TcpRemote(addr(53)), DnsKey::UdpRemote(addr(53)));
    assert_eq!(cache.take_client(tcp), None);
    cache.save_dns_client(tcp, "a");
    cache.save_dns_client(udp, "x");
    cache.save_dns_client(tcp, "b");
    assert_eq!(cache.take_client(tcp), Some("a"));
    assert_eq!(cache.take_client(tcp), Some("b"));
    assert_eq!(cache.take_client(tcp), None);
    assert_eq!(cache.take_client(udp), Some("x"));
}

#[test]
fn questions_are_asked_so_many_times() {
    let cache: DnsClientCache<u8> = DnsClientCache::new(5, 2);
    let mut retries = cache.retries();
    assert!(retries.next());
    assert!(retries.next());
    assert!(!retries.next());
    assert!(!retries.next());
}

#[test]
fn server_defaults() {
    let builder = DnsServerBuilder::new(addr(53));
    assert_eq!(builder.timeout, DEFAULT_TIMEOUT_NANOS);
    assert_eq!(builder.retry_times, 3);
    assert!(builder.build().is_err());
}

#[test]
fn both_servers_ask_the_datagram_resolver() {
    let mut builder = DnsServerBuilder::new(addr(53));
    builder.udp_remote(Some(addr(1))).tcp_remote(Some(addr(2))).retry_times(7).timeout(9);
    builder.bind_addr(addr(54)).connect_options(ConnectOptions::default());
    let server = match builder.build() {
        Ok(server) => server,
        Err(_) => panic!("there is a remote"),
    };
    let plan = Some(ServerPlan { bind: addr(54), remote: addr(1) });
    assert_eq!((server.udp_svr, server.tcp_svr), (plan, plan));
    assert_eq!((server.timeout, server.retry_times), (9, 7));
}

#[test]
fn builder_can_be_used_again() {
    let mut builder = DnsServerBuilder::new(addr(53));
    let mut opts = ConnectOptions::default();
    opts.bind_interface = Some("eth0".to_string());
    opts.tcp_opts = Some(TcpOptions { nodelay: true, ..TcpOptions::default() });
    opts.udp_opts = Some(UdpSocketOpts { mtu: Some(1500), ..UdpSocketOpts::default() });
    builder.connect_options(opts).udp_remote(Some(addr(1)));
    for _ in 0..2 {
        let server = match builder.build() {
            Ok(server) => server,
            Err(_) => panic!("there is a remote"),
        };
        assert_eq!(server.connect_opts.bind_interface, Some("eth0".to_string()));
        assert!(server.connect_opts.tcp_opts.unwrap().nodelay);
        assert_eq!(server.connect_opts.udp_opts.unwrap().mtu, Some(1500));
    }
}

#[test]
fn one_resolver_is_enough() {
    let mut builder = DnsServerBuilder::new(addr(53));
    builder.tcp_remote(Some(addr(2)));
    let server = match builder.build() {
        Ok(server) => server,
        Err(_) => panic!("there is a remote"),
    };
    assert_eq!((server.udp_svr, server.tcp_svr), (None, None));
}

#[test]
fn questions_on_a_stream() {
    let mut server = TcpServer::new(addr(53));
    assert_eq!(server.key(), DnsKey::TcpRemote(addr(53)));
    let packet = question().to_vec().unwrap();
    for _ in 0..2 {
        assert_eq!(server.wants(), 2);
        assert!(matches!(server.receive(&[0, packet.len() as u8]), StreamStep::Read));
        assert_eq!(server.wants(), packet.len());
        match server.receive(&packet) {
            StreamStep::Ask(message) => assert_eq!(message.id(), 99),
            _ => panic!("there is a question"),
        }
    }
    assert!(matches!(server.receive(&[0, 1]), StreamStep::Read));
    assert!(matches!(server.receive(&[7]), StreamStep::Stop(CodecError::Decode)));
    assert_eq!(TcpServer::answer(&question()), Ok(frame(&packet)));
}

#[test]
fn questions_in_single_datagrams() {
    let server = UdpServer::new(addr(53));
    assert_eq!(server.key(), DnsKey::UdpRemote(addr(53)));
    let packet = question().to_vec().unwrap();
    assert_eq!(UdpServer::question(&packet).unwrap().id(), 99);
    assert!(UdpServer::question(&[]).is_none());
    assert_eq!(UdpServer::answer(&question()), Some(packet));
}

type Step = LookupStep<&'static str, u8, &'static str>;

#[test]
fn lookups_find_a_connection() {
    let key = DnsKey::TcpRemote(addr(53));
    let mut cache = DnsClientCache::new(1, 2);
    cache.save_dns_client(key, "dead");
    cache.save_dns_client(key, "alive");
    cache.save_dns_client(DnsKey::UdpRemote(addr(53)), "other");
    let mut lookup = Lookup::new(key, &cache);
    let step: Step = lookup.step(&mut cache, LookupEvent::Begin);
    assert!(matches!(step, LookupStep::Check("dead")));
    let step: Step = lookup.step(&mut cache, LookupEvent::Checked("dead", false));
    assert!(matches!(step, LookupStep::Check("alive")));
    let step: Step = lookup.step(&mut cache, LookupEvent::Checked("alive", true));
    assert!(matches!(step, LookupStep::Ask("alive")));
    let step: Step = lookup.step(&mut cache, LookupEvent::Answered("alive", Ok(7)));
    assert!(matches!(step, LookupStep::Answer(7)));
    assert_eq!(cache.take_client(key), Some("alive"));
    assert_eq!(cache.take_client(key), None);
}

#[test]
fn lookups_give_up_after_their_tries() {
    let key = DnsKey::UdpRemote(addr(53));
    let mut cache = DnsClientCache::new(1, 2);
    let mut lookup = Lookup::new(key, &cache);
    let step: Step = lookup.step(&mut cache, LookupEvent::Begin);
    assert!(matches!(step, LookupStep::Connect(k) if k == key));
    let step: Step = lookup.step(&mut cache, LookupEvent::Connected(Ok("new")));
    assert!(matches!(step, LookupStep::Ask("new")));
    let step: Step = lookup.step(&mut cache, LookupEvent::Answered("new", Err("first")));
    assert!(matches!(step, LookupStep::Ask("new")));
    let step: Step = lookup.step(&mut cache, LookupEvent::Answered("new", Err("second")));
    assert!(matches!(step, LookupStep::Fail(Some("second"))));
    assert_eq!(cache.take_client(key), None);
    let step: Step = Lookup::new(key, &cache)
        .step(&mut cache, LookupEvent::Connected(Err("unreachable")));
    assert!(matches!(step, LookupStep::Fail(Some("unreachable"))));
}

#[test]
fn lookups_without_tries_ask_nothing() {
    let key = DnsKey::UdpRemote(addr(53));
    let mut cache = DnsClientCache::new(1, 0);
    let mut lookup = Lookup::new(key, &cache);
    let step: Step = lookup.step(&mut cache, LookupEvent::Connected(Ok("new")));
    assert!(matches!(step, LookupStep::Fail(None)));
}
