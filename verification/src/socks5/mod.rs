//! The SOCKS5 protocol, as far as a client speaks it to have a TCP connection made.

pub mod tcp_client;

use crate::addr::{IpAddr, SocketAddr};
use crate::buffer::{
    bytes_mut_to_vec, bytes_mut_view, bytes_mut_with_capacity, put_slice, put_u16, put_u8,
};
use crate::text::{
    decimal, decimal_text, digits_value, law_decimal_digits_write_their_number,
};
use crate::wire::{
    be, be128, be16, be32, law_be128_reads_back, law_be16_reads_back, law_be32_reads_back,
    law_numbers_tell_bytes_apart, lemma_be2, lemma_be_bound, numbers, read_be128, read_be16,
    read_be32, write_be128, write_be32,
};
use vstd::prelude::*;
use vstd::utf8::encode_utf8;

verus! {

pub const SOCKS5_VERSION: u8 = 0x5;

pub const SOCKS5_AUTH_METHOD_NONE: u8 = 0x00;

pub const SOCKS5_AUTH_METHOD_GSSAPI: u8 = 0x01;

pub const SOCKS5_AUTH_METHOD_PASSWORD: u8 = 0x02;

pub const SOCKS5_AUTH_METHOD_NOT_ACCEPTABLE: u8 = 0xff;

pub const SOCKS5_ADDR_TYPE_IPV4: u8 = 0x01;

pub const SOCKS5_ADDR_TYPE_DOMAIN_NAME: u8 = 0x03;

pub const SOCKS5_ADDR_TYPE_IPV6: u8 = 0x04;

pub const SOCKS5_CMD_TCP_CONNECT: u8 = 0x01;

pub const SOCKS5_CMD_TCP_BIND: u8 = 0x02;

pub const SOCKS5_CMD_UDP_ASSOCIATE: u8 = 0x03;

pub const SOCKS5_REPLY_SUCCEEDED: u8 = 0x00;

pub const SOCKS5_REPLY_GENERAL_FAILURE: u8 = 0x01;

pub const SOCKS5_REPLY_CONNECTION_NOT_ALLOWED: u8 = 0x02;

pub const SOCKS5_REPLY_NETWORK_UNREACHABLE: u8 = 0x03;

pub const SOCKS5_REPLY_HOST_UNREACHABLE: u8 = 0x04;

pub const SOCKS5_REPLY_CONNECTION_REFUSED: u8 = 0x05;

pub const SOCKS5_REPLY_TTL_EXPIRED: u8 = 0x06;

pub const SOCKS5_REPLY_COMMAND_NOT_SUPPORTED: u8 = 0x07;

pub const SOCKS5_REPLY_ADDRESS_TYPE_NOT_SUPPORTED: u8 = 0x08;

/// SOCKS5 reply code
#[derive(Debug, Clone, Copy, PartialEq, Eq, Structural)]
pub enum Reply {
    Succeeded,
    GeneralFailure,
    ConnectionNotAllowed,
    NetworkUnreachable,
    HostUnreachable,
    ConnectionRefused,
    TtlExpired,
    CommandNotSupported,
    AddressTypeNotSupported,
    OtherReply(u8),
}

impl Reply {
    /// The number of a reply.
    pub open spec fn code(self) -> u8 {
        match self {
            Reply::Succeeded => 0,
            Reply::GeneralFailure => 1,
            Reply::ConnectionNotAllowed => 2,
            Reply::NetworkUnreachable => 3,
            Reply::HostUnreachable => 4,
            Reply::ConnectionRefused => 5,
            Reply::TtlExpired => 6,
            Reply::CommandNotSupported => 7,
            Reply::AddressTypeNotSupported => 8,
            Reply::OtherReply(code) => code,
        }
    }

    /// The reply of a number.
    pub open spec fn of(code: u8) -> Reply {
        match code {
            0 => Reply::Succeeded,
            1 => Reply::GeneralFailure,
            2 => Reply::ConnectionNotAllowed,
            3 => Reply::NetworkUnreachable,
            4 => Reply::HostUnreachable,
            5 => Reply::ConnectionRefused,
            6 => Reply::TtlExpired,
            7 => Reply::CommandNotSupported,
            8 => Reply::AddressTypeNotSupported,
            other => Reply::OtherReply(other),
        }
    }

    /// What a reply reads as.
    pub open spec fn text(self) -> Seq<char> {
        match self {
            Reply::Succeeded => "Succeeded"@,
            Reply::AddressTypeNotSupported => "Address type not supported"@,
            Reply::CommandNotSupported => "Command not supported"@,
            Reply::ConnectionNotAllowed => "Connection not allowed"@,
            Reply::ConnectionRefused => "Connection refused"@,
            Reply::GeneralFailure => "General failure"@,
            Reply::HostUnreachable => "Host unreachable"@,
            Reply::NetworkUnreachable => "Network unreachable"@,
            Reply::TtlExpired => "TTL expired"@,
            Reply::OtherReply(code) => "Other reply ("@ + decimal(code as nat) + ")"@,
        }
    }

    pub fn as_u8(self) -> (code: u8)
        ensures
            code == self.code(),
    {
        match self {
            Reply::Succeeded => SOCKS5_REPLY_SUCCEEDED,
            Reply::GeneralFailure => SOCKS5_REPLY_GENERAL_FAILURE,
            Reply::ConnectionNotAllowed => SOCKS5_REPLY_CONNECTION_NOT_ALLOWED,
            Reply::NetworkUnreachable => SOCKS5_REPLY_NETWORK_UNREACHABLE,
            Reply::HostUnreachable => SOCKS5_REPLY_HOST_UNREACHABLE,
            Reply::ConnectionRefused => SOCKS5_REPLY_CONNECTION_REFUSED,
            Reply::TtlExpired => SOCKS5_REPLY_TTL_EXPIRED,
            Reply::CommandNotSupported => SOCKS5_REPLY_COMMAND_NOT_SUPPORTED,
            Reply::AddressTypeNotSupported => SOCKS5_REPLY_ADDRESS_TYPE_NOT_SUPPORTED,
            Reply::OtherReply(c) => c,
        }
    }

    pub fn from_u8(code: u8) -> (reply: Self)
        ensures
            reply == Reply::of(code),
    {
        match code {
            SOCKS5_REPLY_SUCCEEDED => Reply::Succeeded,
            SOCKS5_REPLY_GENERAL_FAILURE => Reply::GeneralFailure,
            SOCKS5_REPLY_CONNECTION_NOT_ALLOWED => Reply::ConnectionNotAllowed,
            SOCKS5_REPLY_NETWORK_UNREACHABLE => Reply::NetworkUnreachable,
            SOCKS5_REPLY_HOST_UNREACHABLE => Reply::HostUnreachable,
            SOCKS5_REPLY_CONNECTION_REFUSED => Reply::ConnectionRefused,
            SOCKS5_REPLY_TTL_EXPIRED => Reply::TtlExpired,
            SOCKS5_REPLY_COMMAND_NOT_SUPPORTED => Reply::CommandNotSupported,
            SOCKS5_REPLY_ADDRESS_TYPE_NOT_SUPPORTED => Reply::AddressTypeNotSupported,
            _ => Reply::OtherReply(code),
        }
    }

    pub fn to_string(&self) -> (text: String)
        ensures
            text@ == self.text(),
    {
        match *self {
            Reply::Succeeded => "Succeeded".to_owned(),
            Reply::AddressTypeNotSupported => "Address type not supported".to_owned(),
            Reply::CommandNotSupported => "Command not supported".to_owned(),
            Reply::ConnectionNotAllowed => "Connection not allowed".to_owned(),
            Reply::ConnectionRefused => "Connection refused".to_owned(),
            Reply::GeneralFailure => "General failure".to_owned(),
            Reply::HostUnreachable => "Host unreachable".to_owned(),
            Reply::NetworkUnreachable => "Network unreachable".to_owned(),
            Reply::TtlExpired => "TTL expired".to_owned(),
            Reply::OtherReply(code) => {
                let number = decimal_text(code as u64);
                let mut text = "Other reply (".to_owned();
                text.append(number.as_str());
                text.append(")");
                text
            },
        }
    }
}

/// Every number is that of its reply, and every reply but an unnamed one with a named number is
/// that of its number.
pub proof fn law_reply_codes(code: u8, reply: Reply)
    ensures
        Reply::of(code).code() == code,
        !(reply matches Reply::OtherReply(c) && c <= 8) ==> Reply::of(reply.code()) == reply,
{
}

/// The handshake request
/// ```plain
/// +----+----------+----------+
/// |VER | NMETHODS | METHODS  |
/// +----+----------+----------+
/// | 1  |    1     |  1..255  |
/// +----+----------+----------+
/// ```
pub struct HandShakeRequest {
    pub method: Vec<u8>,
}

/// The bytes of a handshake. The number of methods is what one byte can say of it.
pub open spec fn handshake_bytes(methods: Seq<u8>) -> Seq<u8> {
    seq![SOCKS5_VERSION, (methods.len() % 256) as u8] + methods
}

impl HandShakeRequest {
    pub fn new(meth: Vec<u8>) -> (request: Self)
        ensures
            request.method == meth,
    {
        HandShakeRequest { method: meth }
    }

    /// What has to be written.
    pub fn to_bytes(&self) -> (bytes: Vec<u8>)
        requires
            self.method@.len() <= usize::MAX - 2,
        ensures
            bytes@ == handshake_bytes(self.method@),
    {
        let len: usize = self.method.len();
        proof {
            assert(len as u8 == len % 256) by (bit_vector);
        }
        let mut buf = bytes_mut_with_capacity(2 + len);
        put_u8(&mut buf, SOCKS5_VERSION);
        put_u8(&mut buf, len as u8);
        put_slice(&mut buf, self.method.as_slice());
        proof {
            assert(bytes_mut_view(buf) =~= handshake_bytes(self.method@));
        }
        bytes_mut_to_vec(buf)
    }
}

/// The other side does not speak this version.
#[derive(Debug, Clone, Copy, PartialEq, Eq, Structural)]
pub struct UnknownVersion;

/// The handshake response
/// ```plain
/// +----+--------+
/// |VER | METHOD |
/// +----+--------+
/// | 1  |   1    |
/// +----+--------+
/// ```
#[derive(Debug, Clone, Copy, PartialEq, Eq, Structural)]
pub struct HandShakeResponse {
    pub choose_method: u8,
}

impl HandShakeResponse {
    /// Makes the response out of the two bytes that were read.
    pub fn from_bytes(buf: [u8; 2]) -> (response: Result<Self, UnknownVersion>)
        ensures
            response == (if buf@[0] == SOCKS5_VERSION {
                Ok(HandShakeResponse { choose_method: buf@[1] })
            } else {
                Err(UnknownVersion)
            }),
    {
        if buf[0] != SOCKS5_VERSION {
            return Err(UnknownVersion);
        }
        Ok(HandShakeResponse { choose_method: buf[1] })
    }
}

/// Where a connection is to go.
pub enum Socks5Addr {
    SocketAddr(SocketAddr),
    Domain(String, u16),
}

/// Where a connection is to go, as a value.
pub enum TargetModel {
    SocketAddr(SocketAddr),
    Domain(Seq<char>, u16),
}

impl View for Socks5Addr {
    type V = TargetModel;

    open spec fn view(&self) -> TargetModel {
        match *self {
            Socks5Addr::SocketAddr(addr) => TargetModel::SocketAddr(addr),
            Socks5Addr::Domain(domain, port) => TargetModel::Domain(domain@, port),
        }
    }
}

/// The bytes of an address: its type, the address, the port. The length of a domain is what one
/// byte can say of it.
pub open spec fn target_bytes(target: TargetModel) -> Seq<u8> {
    match target {
        TargetModel::SocketAddr(SocketAddr { ip: IpAddr::V4(ip), port }) => seq![
            SOCKS5_ADDR_TYPE_IPV4,
        ] + be32(ip) + be16(port),
        TargetModel::SocketAddr(SocketAddr { ip: IpAddr::V6(ip), port }) => seq![
            SOCKS5_ADDR_TYPE_IPV6,
        ] + be128(ip) + be16(port),
        TargetModel::Domain(domain, port) => seq![
            SOCKS5_ADDR_TYPE_DOMAIN_NAME,
            (encode_utf8(domain).len() % 256) as u8,
        ] + encode_utf8(domain) + be16(port),
    }
}

/// The TCP request
/// ```plain
/// +----+-----+-------+------+----------+----------+
/// |VER | CMD |  RSV  | ATYP | DST.ADDR | DST.PORT |
/// +----+-----+-------+------+----------+----------+
/// | 1  |  1  |  0x00 |  1   | Variable |    2     |
/// +----+-----+-------+------+----------+----------+
/// ```
pub struct Socks5TcpRequest {
    command: u8,
    addr: Socks5Addr,
}

/// The bytes of a TCP request.
pub open spec fn request_bytes(command: u8, target: TargetModel) -> Seq<u8> {
    seq![SOCKS5_VERSION, command, 0u8] + target_bytes(target)
}

impl Socks5TcpRequest {
    pub closed spec fn command(&self) -> u8 {
        self.command
    }

    pub closed spec fn target(&self) -> TargetModel {
        self.addr@
    }

    pub fn new(command: u8, addr: Socks5Addr) -> (request: Self)
        ensures
            request.command() == command,
            request.target() == addr@,
    {
        Socks5TcpRequest { command, addr }
    }

    /// What has to be written.
    pub fn to_bytes(&self) -> (bytes: Vec<u8>)
        ensures
            bytes@ == request_bytes(self.command(), self.target()),
    {
        let mut buf = bytes_mut_with_capacity(22);
        put_u8(&mut buf, SOCKS5_VERSION);
        put_u8(&mut buf, self.command);
        put_u8(&mut buf, 0x00);
        match &self.addr {
            Socks5Addr::SocketAddr(addr) => match addr.ip {
                IpAddr::V4(ip) => {
                    put_u8(&mut buf, SOCKS5_ADDR_TYPE_IPV4);
                    let octets = write_be32(ip);
                    put_slice(&mut buf, octets.as_slice());
                    put_u16(&mut buf, addr.port);
                },
                IpAddr::V6(ip) => {
                    put_u8(&mut buf, SOCKS5_ADDR_TYPE_IPV6);
                    let octets = write_be128(ip);
                    put_slice(&mut buf, octets.as_slice());
                    put_u16(&mut buf, addr.port);
                },
            },
            Socks5Addr::Domain(domain, port) => {
                let name = domain.as_str().as_bytes();
                let len: usize = name.len();
                proof {
                    assert(len as u8 == len % 256) by (bit_vector);
                }
                put_u8(&mut buf, SOCKS5_ADDR_TYPE_DOMAIN_NAME);
                put_u8(&mut buf, len as u8);
                put_slice(&mut buf, name);
                put_u16(&mut buf, *port);
            },
        }
        proof {
            assert(bytes_mut_view(buf) =~= request_bytes(self.command(), self.target()));
        }
        bytes_mut_to_vec(buf)
    }
}

/// The TCP response
/// ```plain
/// +----+-----+-------+------+----------+----------+
/// |VER | REP |  RSV  | ATYP | BND.ADDR | BND.PORT |
/// +----+-----+-------+------+----------+----------+
/// | 1  |  1  | X'00' |  1   | Variable |    2     |
/// +----+-----+-------+------+----------+----------+
/// ```
#[derive(Debug, Clone, Copy, PartialEq, Eq, Structural)]
pub struct Socks5TcpResponse {
    pub reply: Reply,
    pub addr: SocketAddr,
}

/// The first four bytes of a response.
#[derive(Debug, Clone, Copy, PartialEq, Eq, Structural)]
pub struct ResponseHead {
    pub reply: Reply,
    /// Whether an address of version 6 follows, or one of version 4.
    pub v6: bool,
}

/// How many bytes follow the first four of a response.
pub open spec fn tail_len(v6: bool) -> nat {
    if v6 {
        18
    } else {
        6
    }
}

/// The response that its head and what follows it make.
pub open spec fn response_of(head: ResponseHead, tail: Seq<u8>) -> Socks5TcpResponse {
    let ip_len = tail_len(head.v6) - 2;
    let number = be(tail.take(ip_len));
    Socks5TcpResponse {
        reply: head.reply,
        addr: SocketAddr {
            ip: if head.v6 {
                IpAddr::V6(number as u128)
            } else {
                IpAddr::V4(number as u32)
            },
            port: be(tail.skip(ip_len)) as u16,
        },
    }
}

impl Socks5TcpResponse {
    /// Makes the head out of the first four bytes. An address that is a domain cannot be read.
    pub fn read_head(buf: [u8; 4]) -> (head: Result<ResponseHead, UnknownVersion>)
        requires
            buf@[0] == SOCKS5_VERSION ==> buf@[3] == SOCKS5_ADDR_TYPE_IPV4 || buf@[3]
                == SOCKS5_ADDR_TYPE_IPV6,
        ensures
            head == (if buf@[0] == SOCKS5_VERSION {
                Ok(
                    ResponseHead {
                        reply: Reply::of(buf@[1]),
                        v6: buf@[3] == SOCKS5_ADDR_TYPE_IPV6,
                    },
                )
            } else {
                Err(UnknownVersion)
            }),
    {
        if buf[0] != SOCKS5_VERSION {
            return Err(UnknownVersion);
        }
        Ok(ResponseHead { reply: Reply::from_u8(buf[1]), v6: buf[3] == SOCKS5_ADDR_TYPE_IPV6 })
    }

    /// Makes the response out of its head and the bytes that follow it.
    pub fn read_tail(head: ResponseHead, buf: &[u8]) -> (response: Self)
        requires
            buf@.len() == tail_len(head.v6),
        ensures
            response == response_of(head, buf@),
    {
        if head.v6 {
            let octets = &buf[0..16];
            let ip: u128 = read_be128(octets);
            let port: u16 = read_be16(buf[16], buf[17]);
            proof {
                assert(octets@ =~= buf@.take(16));
                assert(buf@.skip(16) =~= seq![buf@[16], buf@[17]]);
            }
            Socks5TcpResponse {
                reply: head.reply,
                addr: SocketAddr { ip: IpAddr::V6(ip), port },
            }
        } else {
            let ip: u32 = read_be32(buf[0], buf[1], buf[2], buf[3]);
            let port: u16 = read_be16(buf[4], buf[5]);
            proof {
                assert(buf@.take(4) =~= seq![buf@[0], buf@[1], buf@[2], buf@[3]]);
                assert(buf@.skip(4) =~= seq![buf@[4], buf@[5]]);
            }
            Socks5TcpResponse {
                reply: head.reply,
                addr: SocketAddr { ip: IpAddr::V4(ip), port },
            }
        }
    }
}

/// Each named reply has the number that the protocol gives it, and no other number is named.
pub proof fn law_replies_have_their_numbers(code: u8)
    ensures
        Reply::of(code) is Succeeded <==> code == 0,
        Reply::of(code) is GeneralFailure <==> code == 1,
        Reply::of(code) is ConnectionNotAllowed <==> code == 2,
        Reply::of(code) is NetworkUnreachable <==> code == 3,
        Reply::of(code) is HostUnreachable <==> code == 4,
        Reply::of(code) is ConnectionRefused <==> code == 5,
        Reply::of(code) is TtlExpired <==> code == 6,
        Reply::of(code) is CommandNotSupported <==> code == 7,
        Reply::of(code) is AddressTypeNotSupported <==> code == 8,
        Reply::of(code) matches Reply::OtherReply(c) ==> c == code,
        Reply::of(code).code() == code,
{
}

/// Each reply reads as the protocol words it; one without a name gives its number, in digits that
/// write it.
pub proof fn law_replies_read_as_they_are(code: u8)
    ensures
        Reply::of(0).text() == "Succeeded"@,
        Reply::of(1).text() == "General failure"@,
        Reply::of(2).text() == "Connection not allowed"@,
        Reply::of(3).text() == "Network unreachable"@,
        Reply::of(4).text() == "Host unreachable"@,
        Reply::of(5).text() == "Connection refused"@,
        Reply::of(6).text() == "TTL expired"@,
        Reply::of(7).text() == "Command not supported"@,
        Reply::of(8).text() == "Address type not supported"@,
        code > 8 ==> exists|digits: Seq<char>|
            #![trigger digits_value(digits)]
            digits_value(digits) == Some(code as nat) && Reply::of(code).text()
                == "Other reply ("@ + digits + ")"@,
{
    if code > 8 {
        law_decimal_digits_write_their_number(code as nat);
        assert(digits_value(decimal(code as nat)) == Some(code as nat));
    }
}

/// A handshake says version five, how many methods there are, and then the methods.
pub proof fn law_handshakes_list_their_methods(methods: Seq<u8>)
    requires
        methods.len() < 256,
    ensures
        handshake_bytes(methods).len() == 2 + methods.len(),
        handshake_bytes(methods)[0] == 5,
        handshake_bytes(methods)[1] == methods.len(),
        handshake_bytes(methods).skip(2) == methods,
{
    assert(handshake_bytes(methods).skip(2) =~= methods);
}

/// A request says version five and the command, then where the connection is to go: the type of
/// the address, the address and the port. An IP address is read back from its bytes, and a domain
/// stands behind its length; in each case the port ends the request.
pub proof fn law_requests_say_where_to_go(command: u8, target: TargetModel)
    ensures
        ({
            let bytes = request_bytes(command, target);
            let end = bytes.len() as int;
            &&& end >= 6
            &&& bytes[0] == 5 && bytes[1] == command && bytes[2] == 0
            &&& match target {
                TargetModel::SocketAddr(addr) => {
                    &&& be(bytes.subrange(end - 2, end)) == addr.port
                    &&& match addr.ip {
                        IpAddr::V4(ip) => bytes[3] == 1 && end == 10 && be(bytes.subrange(4, 8))
                            == ip,
                        IpAddr::V6(ip) => bytes[3] == 4 && end == 22 && be(bytes.subrange(4, 20))
                            == ip,
                    }
                },
                TargetModel::Domain(domain, port) => {
                    let name = encode_utf8(domain);
                    &&& be(bytes.subrange(end - 2, end)) == port
                    &&& bytes[3] == 3
                    &&& end == 7 + name.len()
                    &&& name.len() < 256 ==> bytes[4] == name.len()
                    &&& bytes.subrange(5, end - 2) == name
                },
            }
        }),
{
    let bytes = request_bytes(command, target);
    let end = bytes.len() as int;
    match target {
        TargetModel::SocketAddr(addr) => {
            law_be16_reads_back(addr.port);
            match addr.ip {
                IpAddr::V4(ip) => {
                    law_be32_reads_back(ip);
                    assert(bytes.subrange(4, 8) =~= be32(ip));
                },
                IpAddr::V6(ip) => {
                    law_be128_reads_back(ip);
                    assert(bytes.subrange(4, 20) =~= be128(ip));
                },
            }
            assert(bytes.subrange(end - 2, end) =~= be16(addr.port));
        },
        TargetModel::Domain(domain, port) => {
            law_be16_reads_back(port);
            assert(bytes.subrange(5, end - 2) =~= encode_utf8(domain));
            assert(bytes.subrange(end - 2, end) =~= be16(port));
        },
    }
}

/// A response has the reply of its head, and behind the head an address of four or sixteen bytes
/// and a port of two, each with its most significant byte first.
pub proof fn law_responses_say_their_address(head: ResponseHead, tail: Seq<u8>)
    requires
        tail.len() == tail_len(head.v6),
    ensures
        ({
            let response = response_of(head, tail);
            let end = tail.len() as int;
            &&& end == (if head.v6 {
                18
            } else {
                6int
            })
            &&& response.reply == head.reply
            &&& response.addr.port == tail[end - 2] * 256 + tail[end - 1]
            &&& match response.addr.ip {
                IpAddr::V4(ip) => !head.v6 && be32(ip) == tail.take(4),
                IpAddr::V6(ip) => head.v6 && ip == be(tail.take(16)),
            }
        }),
{
    let end = tail.len() as int;
    lemma_be2(tail.skip(end - 2));
    lemma_be_bound(tail.take(end - 2));
    reveal_with_fuel(numbers, 17);
    if !head.v6 {
        let ip = be(tail.take(4)) as u32;
        law_be32_reads_back(ip);
        law_numbers_tell_bytes_apart(be32(ip), tail.take(4));
    }
}

} // verus!
