use rtun::addr::{IpAddr, SocketAddr};
use rtun::socks5::tcp_client::{ConnectError, ConnectStep, Sock5TcpStream};
use rtun::socks5::{
    HandShakeRequest, HandShakeResponse, Reply, ResponseHead, Socks5Addr, Socks5TcpRequest,
    Socks5TcpResponse, UnknownVersion, SOCKS5_CMD_TCP_CONNECT,
};

#[test]
fn reply_codes_match() {
    for code in 0..=255u8 {
        assert_eq!(Reply::from_u8(code).as_u8(), code);
    }
    assert_eq!(Reply::from_u8(0), Reply::Succeeded);
    assert_eq!(Reply::from_u8(5), Reply::ConnectionRefused);
    assert_eq!(Reply::from_u8(8), Reply::AddressTypeNotSupported);
    assert_eq!(Reply::from_u8(9), Reply::OtherReply(9));
}

#[test]
fn reply_texts() {
    assert_eq!(Reply::Succeeded.to_string(), "Succeeded");
    assert_eq!(Reply::TtlExpired.to_string(), "TTL expired");
    assert_eq!(Reply::AddressTypeNotSupported.to_string(), "Address type not supported");
    assert_eq!(Reply::OtherReply(200).to_string(), "Other reply (200)");
}

#[test]
fn handshake_bytes() {
    assert_eq!(HandShakeRequest::new(vec![0, 2]).to_bytes(), vec![5, 2, 0, 2]);
    assert_eq!(HandShakeRequest::new(vec![]).to_bytes(), vec![5, 0]);
}

#[test]
fn handshake_responses() {
    assert_eq!(
        HandShakeResponse::from_bytes([5, 2]),
        Ok(HandShakeResponse { choose_method: 2 })
    );
    assert_eq!(HandShakeResponse::from_bytes([4, 0]), Err(UnknownVersion));
}

#[test]
fn request_for_an_ipv4_address() {
    let addr = SocketAddr { ip: IpAddr::V4(0x0102_0304), port: 0x1f90 };
    let request = Socks5TcpRequest::new(SOCKS5_CMD_TCP_CONNECT, Socks5Addr::SocketAddr(addr));
    assert_eq!(request.to_bytes(), vec![5, 1, 0, 1, 1, 2, 3, 4, 0x1f, 0x90]);
}

#[test]
fn request_for_an_ipv6_address() {
    let addr = SocketAddr { ip: IpAddr::V6(0x0102 << 112 | 0x0f10), port: 80 };
    let request = Socks5TcpRequest::new(2, Socks5Addr::SocketAddr(addr));
    let mut expected = vec![5, 2, 0, 4, 1, 2];
    expected.extend_from_slice(&[0; 12]);
    expected.extend_from_slice(&[0x0f, 0x10, 0, 80]);
    assert_eq!(request.to_bytes(), expected);
}

#[test]
fn request_for_a_domain() {
    let addr = Socks5Addr::Domain("example.com".to_string(), 443);
    let mut expected = vec![5, 1, 0, 3, 11];
    expected.extend_from_slice(b"example.com");
    expected.extend_from_slice(&[1, 187]);
    assert_eq!(Socks5TcpRequest::new(1, addr).to_bytes(), expected);
}

#[test]
fn long_domain_has_a_short_length() {
    let addr = Socks5Addr::Domain("a".repeat(258), 1);
    let bytes = Socks5TcpRequest::new(1, addr).to_bytes();
    assert_eq!(bytes[4], 2);
    assert_eq!(bytes.len(), 5 + 258 + 2);
}

#[test]
fn responses_with_both_kinds_of_address() {
    let head = Socks5TcpResponse::read_head([5, 0, 0, 1]).unwrap();
    assert_eq!(head, ResponseHead { reply: Reply::Succeeded, v6: false });
    let response = Socks5TcpResponse::read_tail(head, &[127, 0, 0, 1, 4, 62]);
    assert_eq!(response.addr, SocketAddr { ip: IpAddr::V4(0x7f00_0001), port: 1086 });

    let head = Socks5TcpResponse::read_head([5, 9, 0, 4]).unwrap();
    assert_eq!(head, ResponseHead { reply: Reply::OtherReply(9), v6: true });
    let mut tail = [0u8; 18];
    tail[0] = 0x20;
    tail[15] = 7;
    tail[17] = 53;
    let response = Socks5TcpResponse::read_tail(head, &tail);
    assert_eq!(response.addr, SocketAddr { ip: IpAddr::V6(0x20 << 120 | 7), port: 53 });

    assert_eq!(Socks5TcpResponse::read_head([4, 0, 0, 3]), Err(UnknownVersion));
}

fn start() -> Sock5TcpStream {
    let (stream, hello) = Sock5TcpStream::connect(Socks5Addr::Domain("a.b".to_string(), 80));
    assert_eq!(hello, vec![5, 1, 0]);
    assert_eq!(stream.wants(), 2);
    stream
}

#[test]
fn proxy_connects() {
    let mut stream = start();
    match stream.receive(&[5, 0]) {
        ConnectStep::Write(bytes) => assert_eq!(bytes, b"\x05\x01\x00\x03\x03a.b\x00\x50"),
        _ => panic!("the request has to be written"),
    }
    assert_eq!(stream.wants(), 4);
    assert!(matches!(stream.receive(&[5, 0, 0, 1]), ConnectStep::Read));
    assert_eq!(stream.wants(), 6);
    assert!(matches!(stream.receive(&[0; 6]), ConnectStep::Connected));
    assert_eq!(stream.wants(), 0);
}

#[test]
fn proxy_refuses() {
    let mut stream = start();
    assert!(matches!(stream.receive(&[5, 0]), ConnectStep::Write(_)));
    assert!(matches!(stream.receive(&[5, 5, 0, 4]), ConnectStep::Read));
    assert_eq!(stream.wants(), 18);
    match stream.receive(&[0; 18]) {
        ConnectStep::Failed(e) => {
            assert_eq!(e, ConnectError::Refused(Reply::ConnectionRefused))
        }
        _ => panic!("the proxy refused"),
    }
}

#[test]
fn proxy_speaks_something_else() {
    match start().receive(&[4, 0]) {
        ConnectStep::Failed(e) => assert_eq!(e, ConnectError::UnknownVersion),
        _ => panic!("the version is wrong"),
    }
    match start().receive(&[5, 2]) {
        ConnectStep::Failed(e) => assert_eq!(e, ConnectError::ChooseMethod),
        _ => panic!("the method is wrong"),
    }
    let mut stream = start();
    assert!(matches!(stream.receive(&[5, 0]), ConnectStep::Write(_)));
    match stream.receive(&[6, 0, 0, 1]) {
        ConnectStep::Failed(e) => assert_eq!(e, ConnectError::UnknownVersion),
        _ => panic!("the version is wrong"),
    }
}

#[test]
fn addresses_that_are_domains_are_not_understood() {
    let mut stream = start();
    assert!(stream.understands(&[5, 0]));
    assert!(!stream.understands(&[5]));
    assert!(matches!(stream.receive(&[5, 0]), ConnectStep::Write(_)));
    assert!(stream.understands(&[5, 0, 0, 1]));
    assert!(stream.understands(&[5, 0, 0, 4]));
    assert!(!stream.understands(&[5, 0, 0, 3]));
    assert!(stream.understands(&[4, 0, 0, 3]));
}
