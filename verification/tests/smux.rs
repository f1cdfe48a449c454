use bytes::Bytes;
use rtun::smux::cipher::{
    AeadCipher, Cipher, CipherError, Decyptor, Encryptor, NonceAdance,
};
use rtun::smux::fec::FecPacket;
use rtun::smux::session::{FrameWriter, Received, Session, WRITE_BUFFER_SIZE};
use rtun::smux::stream::{SmuxRequest, Stream, StreamClosed, StreamRead};
use rtun::smux::{
    FrameHdr, InvalidHead, CMD_FIN, CMD_NOP, CMD_PSH, CMD_SYN, CMD_UDP, HEAD_SIZE,
};

fn header(version: u8, cmd: u8, sid: u32, len: u16) -> Vec<u8> {
    let mut buf = vec![0u8; HEAD_SIZE];
    FrameHdr { version, cmd, sid, len }.marshal(&mut buf);
    buf
}

#[test]
fn new_header_is_zero() {
    assert_eq!(FrameHdr::new(), FrameHdr { version: 0, cmd: 0, sid: 0, len: 0 });
}

#[test]
fn header_layout() {
    let mut buf = vec![0xaa; 10];
    FrameHdr { version: 1, cmd: CMD_PSH, sid: 0x0403_0201, len: 0x0605 }.marshal(&mut buf);
    assert_eq!(buf, vec![1, 2, 1, 2, 3, 4, 5, 6, 0xaa, 0xaa]);
}

#[test]
fn header_reads_back() {
    let hdr = FrameHdr { version: 9, cmd: 7, sid: 0xdead_beef, len: 0xffff };
    let mut buf = vec![0u8; 20];
    hdr.marshal(&mut buf);
    let mut read = FrameHdr::new();
    assert_eq!(read.unmarshal(&buf), Ok(()));
    assert_eq!(read, hdr);
}

#[test]
fn short_header_is_refused() {
    let mut hdr = FrameHdr { version: 9, cmd: 7, sid: 5, len: 3 };
    assert_eq!(hdr.unmarshal(&[0u8; 7]), Err(InvalidHead));
    assert_eq!(hdr, FrameHdr { version: 9, cmd: 7, sid: 5, len: 3 });
}

#[test]
fn fec_packet_fields() {
    let data = [1u8, 2, 3, 4, 5, 6, 7, 8];
    let packet = FecPacket(&data);
    assert_eq!(packet.seq_id(), 0x0102_0304);
    assert_eq!(packet.flag(), 0x0605);
    assert_eq!(packet.data(), &[7, 8]);
    assert_eq!(FecPacket(&[0, 0, 0, 1, 0, 0]).seq_id(), 1);
}

#[test]
fn stream_reads_chunk_by_chunk() {
    let mut stream = Stream::new(1024, 3);
    stream.push_data(Bytes::copy_from_slice(b"hello"));
    stream.push_data(Bytes::copy_from_slice(b"world"));
    let mut buf = [0u8; 4];
    assert_eq!(stream.poll_read(&mut buf), StreamRead::Read(4));
    assert_eq!(&buf, b"hell");
    assert_eq!(stream.poll_read(&mut buf), StreamRead::Read(1));
    assert_eq!(&buf, b"oell");
    let mut large = [b'.'; 8];
    assert_eq!(stream.poll_read(&mut large), StreamRead::Read(5));
    assert_eq!(&large, b"world...");
    assert_eq!(stream.poll_read(&mut large), StreamRead::Pending);
}

#[test]
fn ended_stream_gives_nothing_more() {
    let mut stream = Stream::new(1024, 3);
    stream.push_data(Bytes::copy_from_slice(b"hello"));
    stream.fin();
    let mut buf = [0u8; 4];
    assert_eq!(stream.poll_read(&mut buf), StreamRead::Closed);
    assert!(matches!(stream.poll_write(b"x"), Err(StreamClosed)));
}

#[test]
fn writes_are_cut_to_frames() {
    let mut stream = Stream::new(3, 7);
    let (req, n) = match stream.poll_write(b"abcdef") {
        Ok(sending) => sending,
        Err(_) => panic!("the stream is open"),
    };
    assert_eq!(n, 3);
    assert_eq!(req.stream_id, 7);
    assert_eq!(req.cmd, CMD_PSH);
    assert_eq!(req.data.as_ref(), b"abc");
    let (req, n) = stream.try_send(b"ab");
    assert_eq!((n, req.data.as_ref()), (2, &b"ab"[..]));
    stream.poll_shutdown();
    assert!(stream.poll_write(b"abcdef").is_err());
}

#[test]
fn opened_streams_have_odd_numbers() {
    let mut session = Session::new(1024, 1);
    let ids: Vec<u32> = (0..4).map(|_| session.open_stream().1.stream_id).collect();
    assert_eq!(ids, vec![1, 3, 5, 7]);
    let (_, req) = session.open_stream();
    assert_eq!(req.cmd, CMD_SYN);
    assert!(req.data.is_empty());
}

#[test]
fn session_follows_the_frames() {
    let mut session = Session::new(1024, 1);
    assert_eq!(session.wants(), 8);
    assert_eq!(session.receive(&header(1, CMD_NOP, 2, 0)), Received::Continue);
    assert_eq!(session.receive(&header(1, CMD_SYN, 2, 0)), Received::Continue);
    assert_eq!(session.wants(), 8);
    assert_eq!(session.receive(&header(1, CMD_PSH, 2, 5)), Received::Continue);
    assert_eq!(session.wants(), 5);
    assert_eq!(session.receive(b"hello"), Received::Continue);
    assert_eq!(session.wants(), 8);
    assert_eq!(session.receive(&header(1, CMD_UDP, 2, 0)), Received::Continue);
    assert_eq!(session.wants(), 8);
    assert_eq!(session.receive(&[9u8; 8]), Received::Continue);
    assert_eq!(session.receive(&header(1, CMD_FIN, 2, 0)), Received::Continue);
    assert_eq!(session.receive(&header(1, CMD_FIN, 4, 0)), Received::Continue);
}

#[test]
fn session_refuses_other_versions_and_commands() {
    let mut session = Session::new(1024, 1);
    assert_eq!(session.receive(&header(2, CMD_NOP, 2, 0)), Received::VersionMismatch);
    assert_eq!(session.receive(&header(1, 5, 2, 0)), Received::UnknownCommand);
}

#[test]
fn writer_writes_its_whole_buffer() {
    let mut writer = FrameWriter::new(1);
    let req = SmuxRequest { stream_id: 3, cmd: CMD_PSH, data: Bytes::copy_from_slice(b"abc") };
    let written = writer.frame(req).to_vec();
    assert_eq!(written.len(), WRITE_BUFFER_SIZE + 3);
    assert_eq!(&written[..8], &[1, CMD_PSH, 3, 0, 0, 0, 3, 0]);
    assert!(written[8..WRITE_BUFFER_SIZE].iter().all(|b| *b == 0));
    assert_eq!(&written[WRITE_BUFFER_SIZE..], b"abc");
    let req = SmuxRequest { stream_id: 5, cmd: CMD_SYN, data: Bytes::new() };
    let written = writer.frame(req).to_vec();
    assert_eq!(&written[..8], &[1, CMD_SYN, 5, 0, 0, 0, 0, 0]);
    assert_eq!(&written[WRITE_BUFFER_SIZE..], b"abc");
}

#[test]
fn long_data_has_a_short_length() {
    let mut writer = FrameWriter::new(1);
    let data = Bytes::from(vec![7u8; 0x1_0002]);
    let written = writer.frame(SmuxRequest { stream_id: 3, cmd: CMD_PSH, data }).to_vec();
    assert_eq!(&written[6..8], &[2, 0]);
}

struct Counter {
    next: u8,
    len: usize,
}

impl NonceAdance for Counter {
    fn advance(&mut self) -> Option<Vec<u8>> {
        if self.next == 3 {
            return None;
        }
        self.next += 1;
        Some(vec![self.next; self.len])
    }
}

#[test]
fn test_decode() {
    let pkg = [
        0x2, 0x0, 0x0, 0x0, 0x45, 0x0, 0x0, 0x70, 0xb, 0xed, 0x0, 0x0, 0x40, 0x11, 0x13, 0xe9,
        0x90, 0xca, 0x9, 0xcc, 0xc0, 0x10, 0x0, 0x1, 0x49, 0xf3, 0xc9, 0xd4, 0x0, 0x5c, 0x86,
        0xf, 0x91, 0x64, 0x37, 0x4f, 0x52, 0x71, 0x36, 0xb7, 0x5f, 0xcd, 0x61, 0xd5, 0x5e,
        0x8d, 0x6c, 0xf6, 0xd2, 0xe0, 0xfd, 0x59, 0x31, 0xb, 0x14, 0x84, 0x48, 0xeb, 0xf, 0xf6,
        0x72, 0x42, 0x4a, 0x39, 0xac, 0x2d, 0xcb, 0x6a, 0x43, 0x24, 0xa2, 0xe6, 0x14, 0x3d,
        0x7d, 0x89, 0x1b, 0x9c, 0xd3, 0x98, 0x3d, 0xe6, 0x21, 0xac, 0xad, 0x8b, 0x83, 0x11,
        0x9a, 0x59, 0x63, 0x81, 0xd4, 0x0, 0xfa, 0x13, 0x25, 0xc5, 0xc9, 0xfd, 0xe4, 0xb4,
        0xc8, 0x39, 0x71, 0xe2, 0x77, 0x2c, 0xde, 0xdb, 0xf4, 0xf5, 0xb2, 0xf4, 0xb9, 0x47,
    ];
    let ciper = AeadCipher::new("aes-128-gcm").unwrap();
    let enc = ciper.encyptor(&[7u8; 16], ()).unwrap();
    let dec = ciper.decyptor(&[7u8; 16], ()).unwrap();
    let mut buf = pkg.to_vec();
    assert_eq!(enc.seal(&[1u8; 12], &mut buf), Ok(()));
    assert_eq!(dec.open(&[1u8; 12], &mut buf), Ok(()));
    assert_eq!(&buf[..pkg.len()], &pkg[..]);
}

#[test]
fn cipher_names_and_key_lengths() {
    let known = [
        ("chacha20-poly1305", 32),
        ("chacha20-ietf-poly1305", 32),
        ("aes-256-gcm", 32),
        ("aes-128-gcm", 16),
    ];
    for (name, len) in known {
        let cipher = AeadCipher::new(name).unwrap();
        assert!(cipher.encyptor(&vec![1u8; len], ()).is_ok());
        assert!(cipher.decyptor(&vec![1u8; len], ()).is_ok());
        assert_eq!(cipher.encyptor(&vec![1u8; len + 1], ()).err(), Some(CipherError::BadKey));
        assert_eq!(cipher.decyptor(&vec![1u8; len - 1], ()).err(), Some(CipherError::BadKey));
    }
    assert_eq!(AeadCipher::new("aes-192-gcm").err(), Some(CipherError::UnknownCipher));
}

#[test]
fn sealed_text_opens_again() {
    for (name, len) in [("chacha20-poly1305", 32), ("aes-256-gcm", 32), ("aes-128-gcm", 16)] {
        let cipher = AeadCipher::new(name).unwrap();
        let key = vec![9u8; len];
        let mut enc = cipher.encyptor(&key, Counter { next: 0, len: 12 }).unwrap();
        let mut dec = cipher.decyptor(&key, Counter { next: 0, len: 12 }).unwrap();
        for text in [&b"first"[..], &b""[..], &b"a third text"[..]] {
            let mut buf = text.to_vec();
            assert_eq!(enc.encypt(&mut buf), Ok(()));
            assert_eq!(buf.len(), text.len() + 16);
            assert_ne!(&buf[..], text);
            let tag = buf[text.len()..].to_vec();
            assert_eq!(dec.decrypt(&mut buf), Ok(()));
            assert_eq!(&buf[..text.len()], text);
            assert_eq!(&buf[text.len()..], &tag[..]);
        }
        let mut buf = b"x".to_vec();
        assert_eq!(enc.encypt(&mut buf), Err(CipherError::NoNonce));
        assert_eq!(dec.decrypt(&mut buf), Err(CipherError::NoNonce));
        assert_eq!(buf, b"x");
    }
}

#[test]
fn changed_data_does_not_open() {
    let cipher = AeadCipher::new("aes-128-gcm").unwrap();
    let enc = cipher.encyptor(&[1u8; 16], ()).unwrap();
    let dec = cipher.decyptor(&[1u8; 16], ()).unwrap();
    let mut buf = b"text".to_vec();
    assert_eq!(enc.seal(&[0u8; 12], &mut buf), Ok(()));
    let mut changed = buf.clone();
    changed[0] ^= 1;
    assert_eq!(dec.open(&[0u8; 12], &mut changed), Err(CipherError::Unauthentic));
    let mut other_nonce = buf.clone();
    assert_eq!(dec.open(&[1u8; 12], &mut other_nonce), Err(CipherError::Unauthentic));
    assert_eq!(dec.open(&[0u8; 11], &mut buf.clone()), Err(CipherError::BadNonce));
    assert_eq!(enc.seal(&[0u8; 13], &mut buf), Err(CipherError::BadNonce));
    let mut short = vec![1u8; 3];
    assert_eq!(dec.open(&[0u8; 12], &mut short), Err(CipherError::Unauthentic));
}

#[test]
fn session_tells_what_it_accepts() {
    let mut session = Session::new(16, 1);
    assert!(session.can_open_stream());
    assert!(session.accepts(&header(1, CMD_PSH, 3, 8)));
    assert!(!session.accepts(&header(1, CMD_PSH, 3, 9)));
    assert!(session.accepts(&header(2, CMD_PSH, 3, 9)));
    assert!(session.accepts(&header(1, CMD_NOP, 3, 9)));
    assert!(!session.accepts(&[1, 2, 3]));
    assert_eq!(session.receive(&header(1, CMD_PSH, 3, 5)), Received::Continue);
    assert!(session.accepts(b"hello"));
    assert!(!session.accepts(b"hi"));
}
