use rtun::addr::{IpAddr, SocketAddr};
use rtun::stack::ingress::{self, Ingress, TcpPacketHandle};
use rtun::stack::ip::{IpPacket, IpProtocol, MalformedPacket};
use rtun::stack::manager::TcpSocketManager;
use rtun::stack::socket::listening_socket;
use rtun::stack::tcp::{
    idle_wait, Manner, ReadPoll, ShutdownPoll, TcpSocketControl, TcpSocketState, WritePoll,
};
use rtun::stack::udp::{self, decode, encode, EncodeError};
use rtun::stack::{interface_settings, Channel, Flush, Readiness, Reserved, StackBuidler};
use rtun::tcp_tun::{intercept_tcp_syn, AcceptOpts, ListenFailed, TcpIConnectInner, TcpSocketOpts};
use smoltcp::iface::{Config, Interface, SocketHandle, SocketSet};
use smoltcp::phy::{Loopback, Medium};
use smoltcp::socket::tcp::{CongestionControl, Socket, SocketBuffer, State};
use smoltcp::time::{Duration, Instant};
use smoltcp::wire::{HardwareAddress, IpAddress, IpCidr};

fn v4(ip: u32, port: u16) -> SocketAddr {
    SocketAddr { ip: IpAddr::V4(ip), port }
}

fn v6(ip: u128, port: u16) -> SocketAddr {
    SocketAddr { ip: IpAddr::V6(ip), port }
}

fn ipv4(protocol: u8, payload: &[u8]) -> Vec<u8> {
    let total = 20 + payload.len() as u16;
    let mut packet = vec![0x45, 0];
    packet.extend_from_slice(&total.to_be_bytes());
    packet.extend_from_slice(&[0, 0, 0x40, 0, 64, protocol, 0, 0]);
    packet.extend_from_slice(&[10, 0, 0, 1, 10, 0, 0, 2]);
    packet.extend_from_slice(payload);
    packet
}

fn segment(flags: u8, dport: u16) -> Vec<u8> {
    let mut tcp = vec![0x30, 0x39];
    tcp.extend_from_slice(&dport.to_be_bytes());
    tcp.extend_from_slice(&[0, 0, 0, 1, 0, 0, 0, 0, 0x50, flags, 4, 0, 0, 0, 0, 0]);
    tcp
}

#[test]
fn packets_say_what_they_carry() {
    let data = ipv4(17, b"payload");
    let packet = match IpPacket::new_checked(&data) {
        Ok(packet) => packet,
        Err(_) => panic!("the packet is well-formed"),
    };
    assert_eq!(packet.protocol(), IpProtocol::Udp);
    assert_eq!(packet.src_addr(), IpAddr::V4(0x0a00_0001));
    assert_eq!(packet.dst_addr(), IpAddr::V4(0x0a00_0002));
    assert_eq!(packet.payload(), b"payload");
}

#[test]
fn malformed_packets_are_refused() {
    let whole = ipv4(17, b"payload");
    for bad in [&whole[..19], &whole[..26], &[0x55; 40][..], &[0x60; 39][..]] {
        assert!(matches!(IpPacket::new_checked(bad), Err(MalformedPacket)));
    }
}

#[test]
fn datagrams_read_back() {
    let cases = [
        (b"hello".to_vec(), v4(0x0a00_0001, 53), v4(0x0102_0304, 40000)),
        (vec![], v4(1, 0), v4(2, 65535)),
        (vec![9u8; 65507], v4(1, 1), v4(2, 2)),
        (b"six".to_vec(), v6(1 << 127 | 5, 53), v6(u128::MAX, 40000)),
        (vec![9u8; 65527], v6(1, 1), v6(2, 2)),
    ];
    for item in cases {
        let packet = encode(&item).unwrap();
        assert_eq!(decode(&packet), Some(item));
    }
}

#[test]
fn datagram_bytes() {
    let packet = encode(&(b"ab".to_vec(), v4(0x0a00_0001, 1), v4(0x0a00_0002, 2))).unwrap();
    assert_eq!(&packet[..10], &[0x45, 0, 0, 30, 0, 0, 0x40, 0, 20, 17]);
    assert_eq!(&packet[12..20], &[10, 0, 0, 1, 10, 0, 0, 2]);
    assert_eq!(&packet[20..26], &[0, 1, 0, 2, 0, 10]);
    assert_eq!(&packet[28..], b"ab");
    let packet = encode(&(b"ab".to_vec(), v6(1, 1), v6(2, 2))).unwrap();
    assert_eq!(&packet[..8], &[0x60, 0, 0, 0, 0, 10, 17, 20]);
    assert_eq!(packet.len(), 50);
}

#[test]
fn datagrams_that_cannot_be_sent() {
    assert_eq!(encode(&(vec![], v4(1, 1), v6(2, 2))), Err(EncodeError::Unmatched));
    assert_eq!(encode(&(vec![], v6(1, 1), v4(2, 2))), Err(EncodeError::Unmatched));
    assert_eq!(encode(&(vec![0; 65508], v4(1, 1), v4(2, 2))), Err(EncodeError::TooLong));
    assert_eq!(encode(&(vec![0; 65528], v6(1, 1), v6(2, 2))), Err(EncodeError::TooLong));
}

#[test]
fn other_packets_hold_no_datagram() {
    assert_eq!(decode(&ipv4(6, &segment(2, 80))), None);
    assert_eq!(decode(&[0x45; 10]), None);
}

#[test]
fn entrance_keeps_one_packet() {
    let mut stack = StackBuidler::new().build();
    assert_eq!(stack.poll_ready(), None);
    assert!(matches!(stack.flush(), Flush::Idle));
    let first = ipv4(17, b"first");
    assert!(!stack.has_packet());
    assert_eq!(stack.start_send(first.clone()), Ok(()));
    assert!(stack.has_packet());
    assert_eq!(stack.poll_ready(), Some(Channel::Udp));
    assert_eq!(stack.start_send(ipv4(6, b"second")), Ok(()));
    assert_eq!(stack.start_send(vec![]), Ok(()));
    stack.reserved();
    assert_eq!(stack.poll_ready(), None);
    match stack.flush() {
        Flush::Send(packet, channel) => assert_eq!((packet, channel), (first, Channel::Udp)),
        _ => panic!("the place was reserved"),
    }
    stack.after_send(true);
    assert!(matches!(stack.flush(), Flush::Idle));
}

#[test]
fn entrance_asks_for_a_place() {
    let mut stack = StackBuidler::new().build();
    let packet = ipv4(6, b"segment");
    assert_eq!(stack.start_send(packet.clone()), Ok(()));
    let (taken, channel) = match stack.flush() {
        Flush::Reserve(packet, channel) => (packet, channel),
        _ => panic!("no place was reserved"),
    };
    assert_eq!((&taken, channel), (&packet, Channel::Tcp));
    assert!(matches!(
        stack.after_reserve(taken.clone(), channel, Readiness::Pending),
        Reserved::Pending
    ));
    assert!(matches!(
        stack.after_reserve(taken.clone(), channel, Readiness::Failed),
        Reserved::Failed
    ));
    match stack.after_reserve(taken, channel, Readiness::Ready) {
        Reserved::Send(p, c) => assert_eq!((p, c), (packet.clone(), Channel::Tcp)),
        _ => panic!("the place was had"),
    }
    stack.after_send(false);
    assert_eq!(stack.start_send(packet), Ok(()));
    assert_eq!(stack.poll_ready(), None);
}

#[test]
fn entrance_sorts_by_protocol() {
    let channels = [
        (1, Some(Channel::Icmp)),
        (6, Some(Channel::Tcp)),
        (17, Some(Channel::Udp)),
        (58, Some(Channel::Icmp)),
        (47, None),
    ];
    for (protocol, channel) in channels {
        let mut stack = StackBuidler::new().build();
        assert_eq!(stack.start_send(ipv4(protocol, b"x")), Ok(()));
        assert_eq!(stack.poll_ready(), channel);
    }
    let mut stack = StackBuidler::new().build();
    assert_eq!(stack.start_send(vec![0x45]), Err(MalformedPacket));
}

#[test]
fn interface_takes_everything() {
    let settings = interface_settings(1500);
    assert_eq!(settings.mtu, 1500);
    assert_eq!((settings.ipv4, settings.ipv6), ((1, 0), (1, 0)));
    assert!(settings.any_ip && settings.checksum_tx_only);
}

#[test]
fn first_segments_open_connections() {
    let handle = TcpPacketHandle::new(30);
    let frame = ipv4(6, &segment(0x02, 443));
    match handle.handle_packet::<u8>(frame.clone()) {
        Ingress::Open(creation, forwarded) => {
            assert_eq!(forwarded, frame);
            assert_eq!(creation.src_addr, v4(0x0a00_0001, 12345));
            assert_eq!(creation.dst_addr, v4(0x0a00_0002, 443));
            assert_eq!(creation.socket.state(), State::Listen);
            assert_eq!(creation.socket.keep_alive(), Some(Duration::from_secs(30)));
            assert_eq!(creation.socket.timeout(), Some(Duration::from_secs(7200)));
            assert_eq!(creation.socket.congestion_control(), CongestionControl::Cubic);
            assert_eq!(creation.socket.listen_endpoint().port, 443);
            assert_eq!(creation.socket.send_capacity(), 131072);
            assert_eq!(creation.control.send_state(), TcpSocketState::Normal);
        }
        _ => panic!("the segment asks for a connection"),
    }
}

#[test]
fn other_segments_are_forwarded_or_dropped() {
    let handle = TcpPacketHandle::new(30);
    for flags in [0x12, 0x10, 0x11, 0x04] {
        let frame = ipv4(6, &segment(flags, 443));
        match handle.handle_packet::<u8>(frame.clone()) {
            Ingress::Forward(forwarded) => assert_eq!(forwarded, frame),
            _ => panic!("the segment belongs to a connection"),
        }
    }
    for frame in [ipv4(6, &segment(0x02, 0)), ipv4(17, b"x"), vec![0x45; 3]] {
        assert!(matches!(handle.handle_packet::<u8>(frame), Ingress::Dropped));
    }
}

#[test]
fn stack_sleeps_when_it_may() {
    assert_eq!(idle_wait(true, Some(7)), None);
    assert_eq!(idle_wait(false, Some(7)), Some(7));
    assert_eq!(idle_wait(false, Some(0)), None);
    assert_eq!(idle_wait(false, None), Some(5000));
}

struct Net {
    device: Loopback,
    iface: Interface,
    set: SocketSet<'static>,
    now: i64,
}

impl Net {
    fn poll(&mut self) {
        for _ in 0..20 {
            self.now += 20;
            let now = Instant::from_millis(self.now);
            self.iface.poll(now, &mut self.device, &mut self.set);
        }
    }
}

/// A connection over a loopback device: the handles of its client and of its server.
fn connected() -> (Net, SocketHandle, SocketHandle) {
    let mut device = Loopback::new(Medium::Ip);
    let config = Config::new(HardwareAddress::Ip);
    let mut iface = Interface::new(config, &mut device, Instant::from_millis(0));
    iface.update_ip_addrs(|addrs| {
        addrs.push(IpCidr::new(IpAddress::v4(127, 0, 0, 1), 8)).unwrap();
    });
    let mut set = SocketSet::new(vec![]);
    let server = set.add(listening_socket(4096, 4096, None, v4(0x7f00_0001, 80)).unwrap());
    let client = set.add(Socket::new(
        SocketBuffer::new(vec![0u8; 4096]),
        SocketBuffer::new(vec![0u8; 4096]),
    ));
    set.get_mut::<Socket>(client)
        .connect(iface.context(), (IpAddress::v4(127, 0, 0, 1), 80), 50000)
        .unwrap();
    let mut net = Net { device, iface, set, now: 0 };
    net.poll();
    assert_eq!(net.set.get::<Socket>(server).state(), State::Established);
    (net, client, server)
}

#[test]
fn sockets_on_port_zero_are_not_to_be_had() {
    assert!(listening_socket(4096, 4096, None, v4(1, 0)).is_none());
    let socket = listening_socket(4096, 2048, Some(3), v6(9, 8)).unwrap();
    assert_eq!(socket.state(), State::Listen);
    assert_eq!(socket.send_capacity(), 2048);
    assert_eq!(socket.recv_capacity(), 4096);
    assert_eq!(socket.listen_endpoint().addr, Some(IpAddress::v6(0, 0, 0, 0, 0, 0, 0, 9)));
}

#[test]
fn bytes_pass_both_ways() {
    let (mut net, client, server) = connected();
    let mut control: TcpSocketControl<&str> = TcpSocketControl::new(Manner::Shared, 8, 8);
    let mut buf = [0u8; 16];
    assert!(matches!(
        control.poll_read(&mut buf, "reader", false),
        ReadPoll::Pending { wake: None }
    ));
    assert_eq!(*control.recv_waker(), Some("reader"));

    net.set.get_mut::<Socket>(client).send_slice(b"hello, world").unwrap();
    net.poll();
    let serviced = control.service(net.set.get_mut::<Socket>(server));
    assert!(!serviced.remove);
    assert_eq!(serviced.wake_receiver, Some("reader"));
    assert_eq!(serviced.wake_sender, None);
    // Eight bytes fit at a time.
    assert!(matches!(
        control.poll_read(&mut buf, "reader", false),
        ReadPoll::Ready { n: 8, notify: true }
    ));
    assert_eq!(&buf[..8], b"hello, w");
    control.service(net.set.get_mut::<Socket>(server));
    assert!(matches!(
        control.poll_read(&mut buf, "reader", false),
        ReadPoll::Ready { n: 4, notify: true }
    ));
    assert_eq!(&buf[..8], b"orldo, w");

    assert!(matches!(
        control.poll_write(b"answer more", "writer", false),
        WritePoll::Ready { n: 8, notify: true }
    ));
    assert!(matches!(
        control.poll_write(b"ore", "writer", false),
        WritePoll::Pending { wake: None }
    ));
    let serviced = control.service(net.set.get_mut::<Socket>(server));
    assert_eq!(serviced.wake_sender, Some("writer"));
    assert_eq!(serviced.wake_receiver, None);
    net.poll();
    let n = net.set.get_mut::<Socket>(client).recv_slice(&mut buf).unwrap();
    assert_eq!(&buf[..n], b"answer m");
}

#[test]
fn write_half_closes_after_everything_is_sent() {
    let (mut net, client, server) = connected();
    let mut control: TcpSocketControl<&str> = TcpSocketControl::new(Manner::Shared, 64, 64);
    assert!(matches!(control.poll_write(b"last", "w", false), WritePoll::Ready { n: 4, .. }));
    assert!(matches!(control.poll_shutdown("w", false), ShutdownPoll::Pending { wake: None }));
    assert!(matches!(control.poll_write(b"x", "w", false), WritePoll::BrokenPipe));
    assert_eq!(control.send_state(), TcpSocketState::Close);
    let serviced = control.service(net.set.get_mut::<Socket>(server));
    assert_eq!(serviced.wake_sender, Some("w"));
    assert_eq!(control.send_state(), TcpSocketState::Close);
    assert_eq!(net.set.get::<Socket>(server).state(), State::Established);
    assert!(matches!(control.poll_shutdown("w", false), ShutdownPoll::Pending { wake: None }));
    net.poll();
    control.service(net.set.get_mut::<Socket>(server));
    assert_eq!(control.send_state(), TcpSocketState::Closing);
    net.poll();
    let mut buf = [0u8; 16];
    let n = net.set.get_mut::<Socket>(client).recv_slice(&mut buf).unwrap();
    assert_eq!(&buf[..n], b"last");
    assert_eq!(net.set.get::<Socket>(client).state(), State::CloseWait);

    net.set.get_mut::<Socket>(client).abort();
    net.poll();
    assert_eq!(net.set.get::<Socket>(server).state(), State::Closed);
    let serviced = control.service(net.set.get_mut::<Socket>(server));
    assert!(serviced.remove);
    assert_eq!(serviced.wake_sender, Some("w"));
    assert_eq!(control.send_state(), TcpSocketState::Closed);
    assert_eq!(control.recv_state(), TcpSocketState::Closed);
    assert!(matches!(control.poll_shutdown("w", false), ShutdownPoll::Ready));
    assert!(matches!(
        control.poll_read(&mut buf, "r", false),
        ReadPoll::Ready { n: 0, notify: false }
    ));
}

#[test]
fn end_of_the_stream_comes_after_its_bytes() {
    let (mut net, client, server) = connected();
    let mut control: TcpSocketControl<&str> = TcpSocketControl::new(Manner::Shared, 64, 64);
    net.set.get_mut::<Socket>(client).send_slice(b"bye").unwrap();
    net.set.get_mut::<Socket>(client).close();
    net.poll();
    let mut buf = [0u8; 16];
    assert!(matches!(control.poll_read(&mut buf, "r", false), ReadPoll::Pending { .. }));
    let serviced = control.service(net.set.get_mut::<Socket>(server));
    assert_eq!(serviced.wake_receiver, Some("r"));
    assert_eq!(control.recv_state(), TcpSocketState::Closed);
    assert!(matches!(control.poll_read(&mut buf, "r", false), ReadPoll::Ready { n: 3, .. }));
    assert!(matches!(control.poll_read(&mut buf, "r", false), ReadPoll::Ready { n: 0, .. }));
}

#[test]
fn another_task_that_waited_is_woken() {
    let mut control: TcpSocketControl<&str> = TcpSocketControl::new(Manner::Shared, 64, 64);
    let mut buf = [0u8; 4];
    control.poll_read(&mut buf, "first", false);
    assert!(matches!(
        control.poll_read(&mut buf, "second", false),
        ReadPoll::Pending { wake: Some("first") }
    ));
    assert!(matches!(
        control.poll_read(&mut buf, "second", true),
        ReadPoll::Pending { wake: None }
    ));
    control.release();
    assert_eq!(control.recv_state(), TcpSocketState::Close);
    assert_eq!(control.send_state(), TcpSocketState::Close);
}

#[test]
fn threaded_stack_wakes_the_same_task() {
    let mut inner: TcpIConnectInner<&str> = TcpIConnectInner::new();
    let mut buf = [0u8; 4];
    inner.control.poll_read(&mut buf, "task", false);
    assert!(matches!(
        inner.control.poll_read(&mut buf, "task", true),
        ReadPoll::Pending { wake: Some("task") }
    ));
    assert!(matches!(
        inner.control.poll_read(&mut buf, "other", false),
        ReadPoll::Pending { wake: None }
    ));
    assert!(matches!(inner.control.poll_write(b"abc", "task", false), WritePoll::Ready { n: 3, .. }));
    assert!(matches!(inner.control.poll_shutdown("task", true), ShutdownPoll::Pending { wake: None }));
    assert!(matches!(inner.control.poll_shutdown("task", true), ShutdownPoll::Ready));
    assert!(matches!(inner.control.poll_write(b"abc", "task", false), WritePoll::BrokenPipe));
    inner.control.release();
    assert!(matches!(inner.control.poll_shutdown("task", true), ShutdownPoll::Ready));
}

#[test]
fn threaded_stack_passes_bytes() {
    let (mut net, client, server) = connected();
    let mut inner: TcpIConnectInner<&str> = TcpIConnectInner::new();
    net.set.get_mut::<Socket>(client).send_slice(b"hello").unwrap();
    net.poll();
    let serviced = inner.control.service(net.set.get_mut::<Socket>(server));
    assert!(!serviced.remove);
    let mut buf = [0u8; 8];
    assert!(matches!(inner.control.poll_read(&mut buf, "r", false), ReadPoll::Ready { n: 5, .. }));
    assert_eq!(&buf[..5], b"hello");
}

/// A connection over a loopback device whose server is in a manager.
struct Managed {
    device: Loopback,
    iface: Interface,
    manager: TcpSocketManager<&'static str>,
    client: SocketHandle,
    id: u64,
    now: i64,
}

impl Managed {
    fn new() -> Managed {
        let mut device = Loopback::new(Medium::Ip);
        let config = Config::new(HardwareAddress::Ip);
        let mut iface = Interface::new(config, &mut device, Instant::from_millis(0));
        iface.update_ip_addrs(|addrs| {
            addrs.push(IpCidr::new(IpAddress::v4(127, 0, 0, 1), 8)).unwrap();
        });
        let mut manager = TcpSocketManager::new();
        let control = TcpSocketControl::new(Manner::Shared, 64, 64);
        let server = listening_socket(4096, 4096, None, v4(0x7f00_0001, 80)).unwrap();
        let id = manager.open(control, server);
        let mut caller = Socket::new(
            SocketBuffer::new(vec![0u8; 4096]),
            SocketBuffer::new(vec![0u8; 4096]),
        );
        caller.connect(iface.context(), (IpAddress::v4(127, 0, 0, 1), 80), 50000).unwrap();
        let control = TcpSocketControl::new(Manner::Shared, 64, 64);
        assert_eq!(manager.open(control, caller), id + 1);
        let client = manager.socket_set().iter().map(|(handle, _)| handle).last().unwrap();
        let mut managed = Managed { device, iface, manager, client, id, now: 0 };
        managed.poll();
        managed
    }

    fn poll(&mut self) {
        for _ in 0..20 {
            self.now += 20;
            let now = Instant::from_millis(self.now);
            self.iface.poll(now, &mut self.device, self.manager.socket_set());
        }
    }

    fn client(&mut self) -> &mut Socket<'static> {
        self.manager.socket_set().get_mut::<Socket>(self.client)
    }
}

#[test]
fn manager_services_its_connections() {
    let mut m = Managed::new();
    let mut buf = [0u8; 16];
    assert!(m.manager.service_all().is_empty());
    assert!(matches!(
        m.manager.poll_read(m.id, &mut buf, "reader", false),
        Some(ReadPoll::Pending { wake: None })
    ));
    m.client().send_slice(b"hello").unwrap();
    m.poll();
    assert_eq!(m.manager.service_all(), vec!["reader"]);
    assert!(matches!(
        m.manager.poll_read(m.id, &mut buf, "reader", false),
        Some(ReadPoll::Ready { n: 5, .. })
    ));
    assert_eq!(&buf[..5], b"hello");
    assert!(matches!(
        m.manager.poll_write(m.id, b"answer", "writer", false),
        Some(WritePoll::Ready { n: 6, .. })
    ));
    m.manager.service_all();
    m.poll();
    let n = m.client().recv_slice(&mut buf).unwrap();
    assert_eq!(&buf[..n], b"answer");
}

#[test]
fn held_connections_outlive_their_sockets() {
    let mut m = Managed::new();
    let mut buf = [0u8; 16];
    m.client().send_slice(b"last").unwrap();
    m.poll();
    m.manager.service_all();
    m.client().abort();
    m.poll();
    let control = TcpSocketControl::new(Manner::Shared, 64, 64);
    let socket = listening_socket(4096, 4096, None, v4(0x7f00_0001, 81)).unwrap();
    m.manager.open(control, socket);
    assert_eq!(m.manager.socket_set().iter().count(), 3);
    m.manager.service_all();
    assert_eq!(m.manager.socket_set().iter().count(), 1);
    for (_, socket) in m.manager.socket_set().iter() {
        match socket {
            smoltcp::socket::Socket::Tcp(tcp) => {
                assert_eq!(tcp.state(), State::Listen);
                assert_eq!(tcp.listen_endpoint().port, 81);
            }
            _ => panic!("there are no other sockets"),
        }
    }
    assert!(matches!(
        m.manager.poll_read(m.id, &mut buf, "r", false),
        Some(ReadPoll::Ready { n: 4, .. })
    ));
    assert!(matches!(
        m.manager.poll_shutdown(m.id, "r", false),
        Some(ShutdownPoll::Ready)
    ));
    m.manager.release(m.id);
    assert!(m.manager.poll_read(m.id, &mut buf, "r", false).is_none());
    assert!(m.manager.poll_write(m.id, b"x", "r", false).is_none());
    assert!(m.manager.poll_shutdown(m.id, "r", false).is_none());
}

#[test]
fn released_connections_leave_with_their_sockets() {
    let mut m = Managed::new();
    let mut buf = [0u8; 16];
    m.manager.release(m.id);
    assert!(m.manager.poll_write(m.id, b"x", "r", false).is_some());
    m.client().abort();
    m.poll();
    m.manager.service_all();
    assert!(m.manager.poll_read(m.id, &mut buf, "r", false).is_none());
    let control = TcpSocketControl::new(Manner::Shared, 64, 64);
    let socket = listening_socket(4096, 4096, None, v4(0x7f00_0001, 81)).unwrap();
    assert_eq!(m.manager.open(control, socket), m.id + 2);
}

#[test]
fn connections_keep_their_own_sockets() {
    let mut m = Managed::new();
    let mut buf = [0u8; 16];
    let (server, client) = (m.id, m.id + 1);
    for _ in 0..2 {
        assert!(matches!(
            m.manager.poll_write(server, b"from server", "w", false),
            Some(WritePoll::Ready { n: 11, .. })
        ));
        assert!(matches!(
            m.manager.poll_write(client, b"from client", "w", false),
            Some(WritePoll::Ready { n: 11, .. })
        ));
        m.manager.service_all();
        m.poll();
        m.manager.service_all();
        assert!(matches!(
            m.manager.poll_read(server, &mut buf, "r", false),
            Some(ReadPoll::Ready { n: 11, .. })
        ));
        assert_eq!(&buf[..11], b"from client");
        assert!(matches!(
            m.manager.poll_read(client, &mut buf, "r", false),
            Some(ReadPoll::Ready { n: 11, .. })
        ));
        assert_eq!(&buf[..11], b"from server");
    }
}

#[test]
fn threaded_stack_opens_connections() {
    match intercept_tcp_syn::<u8>(v4(1, 80), &segment(0x02, 80)) {
        Ok(Some((_, socket))) => {
            assert_eq!(socket.state(), State::Listen);
            assert_eq!(socket.keep_alive(), None);
            assert_eq!(socket.timeout(), Some(Duration::from_secs(7200)));
        }
        _ => panic!("the segment asks for a connection"),
    }
    assert!(matches!(intercept_tcp_syn::<u8>(v4(1, 80), &segment(0x12, 80)), Ok(None)));
    assert!(matches!(
        intercept_tcp_syn::<u8>(v4(1, 0), &segment(0x02, 0)),
        Err(ListenFailed)
    ));
}

#[test]
fn socket_options_default_to_the_system() {
    let opts = AcceptOpts::default();
    assert!(!opts.ipv6_only);
    let tcp: TcpSocketOpts = opts.tcp;
    assert!(tcp.send_buffer_size.is_none() && tcp.recv_buffer_size.is_none());
    assert!(!tcp.nodelay && !tcp.fastopen && !tcp.mptcp && tcp.keepalive.is_none());
}

#[test]
fn broken_headers_are_told() {
    assert!(ingress::is_readable(&ipv4(6, &segment(2, 80))));
    assert!(!ingress::is_readable(&ipv4(6, &[0u8; 13])));
    assert!(ingress::is_readable(&ipv4(17, &[0u8; 3])));
    assert!(ingress::is_readable(&[0x45]));
    assert!(!ingress::is_readable(&[]));
    let datagram = (b"hello".to_vec(), v4(1, 2), v4(3, 4));
    let mut packet = encode(&datagram).unwrap();
    assert!(udp::is_readable(&packet));
    packet[25] = 7;
    assert!(!udp::is_readable(&packet));
    packet[25] = 200;
    assert!(!udp::is_readable(&packet));
    assert!(!udp::is_readable(&ipv4(17, &[0u8; 7])));
    assert!(udp::is_readable(&ipv4(6, &[0u8; 7])));
    assert!(!udp::is_readable(&[]));
}

#[test]
fn manager_says_who_waits() {
    let mut m = Managed::new();
    let mut buf = [0u8; 4];
    assert!(m.manager.can_open());
    assert_eq!(m.manager.recv_waker(m.id), None);
    m.manager.poll_read(m.id, &mut buf, "reader", false);
    assert_eq!(m.manager.recv_waker(m.id), Some(&"reader"));
    assert_eq!(m.manager.send_waker(m.id), None);
    m.manager.poll_shutdown(m.id, "writer", false);
    assert_eq!(m.manager.send_waker(m.id), Some(&"writer"));
    assert_eq!(m.manager.send_waker(m.id + 1), None);
    assert!(matches!(
        m.manager.poll_read(m.id, &mut buf, "next", false),
        Some(ReadPoll::Pending { wake: Some("reader") })
    ));
}
