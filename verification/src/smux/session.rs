//! A session: the streams of one connection, the frames that come in for them, and those that go
//! out.

use crate::buffer::{bytes_copy, bytes_empty, bytes_slice, bytes_view, put};
use crate::smux::stream::{joined, law_push_appends, SmuxRequest, Stream, StreamModel};
use crate::smux::{
    header_bytes, header_of, law_header_reads_back, law_headers_have_their_layout, FrameHdr,
    CMD_FIN, CMD_NOP, CMD_PSH, CMD_SYN, CMD_UDP, HEAD_SIZE, UPD_HDR_SIZE,
};
use std::collections::HashMap;
use vstd::prelude::*;

verus! {

/// What is read next from the connection.
#[derive(Debug, Clone, Copy, PartialEq, Eq, Structural)]
pub enum Expected {
    /// The header of a frame.
    Header,
    /// The data that a header announced.
    Payload(FrameHdr),
    /// The header of a datagram.
    Datagram,
}

/// What came of reading from the connection.
#[derive(Debug, Clone, Copy, PartialEq, Eq, Structural)]
pub enum Received {
    /// The session goes on.
    Continue,
    /// The other side speaks another version.
    VersionMismatch,
    /// The command is none of those that are known.
    UnknownCommand,
}

/// A session as a value.
pub struct SessionModel {
    pub streams: Map<u32, StreamModel>,
    pub max_frame_size: usize,
    pub version: u8,
    pub next_stream_id: u32,
    pub expected: Expected,
}

/// How many bytes are read next.
pub open spec fn expected_len(expected: Expected) -> int {
    match expected {
        Expected::Header => HEAD_SIZE as int,
        Expected::Payload(hdr) => hdr.len as int,
        Expected::Datagram => UPD_HDR_SIZE as int,
    }
}

/// Whether what was read can be taken: as much as is expected, and no header that announces more
/// than a frame holds.
pub open spec fn acceptable(m: SessionModel, data: Seq<u8>) -> bool {
    &&& data.len() == expected_len(m.expected)
    &&& m.expected is Header && header_of(data).version == m.version && header_of(data).cmd
        == CMD_PSH ==> HEAD_SIZE + header_of(data).len <= m.max_frame_size
}

/// The session after the header of a frame.
pub open spec fn after_header(m: SessionModel, hdr: FrameHdr) -> (SessionModel, Received) {
    if hdr.version != m.version {
        (m, Received::VersionMismatch)
    } else if hdr.cmd == CMD_NOP {
        (m, Received::Continue)
    } else if hdr.cmd == CMD_SYN {
        if m.streams.dom().contains(hdr.sid) {
            (m, Received::Continue)
        } else {
            let stream = StreamModel {
                id: hdr.sid,
                frame_size: m.max_frame_size,
                chunks: Seq::empty(),
                closed: false,
            };
            (SessionModel { streams: m.streams.insert(hdr.sid, stream), ..m }, Received::Continue)
        }
    } else if hdr.cmd == CMD_PSH {
        (SessionModel { expected: Expected::Payload(hdr), ..m }, Received::Continue)
    } else if hdr.cmd == CMD_UDP {
        (SessionModel { expected: Expected::Datagram, ..m }, Received::Continue)
    } else if hdr.cmd == CMD_FIN {
        if m.streams.dom().contains(hdr.sid) {
            let stream = StreamModel { closed: true, ..m.streams[hdr.sid] };
            (SessionModel { streams: m.streams.insert(hdr.sid, stream), ..m }, Received::Continue)
        } else {
            (m, Received::Continue)
        }
    } else {
        (m, Received::UnknownCommand)
    }
}

/// The session after the data of a frame. The stream gets the header with it.
pub open spec fn after_payload(m: SessionModel, hdr: FrameHdr, data: Seq<u8>) -> SessionModel {
    let streams = if m.streams.dom().contains(hdr.sid) {
        let stream = m.streams[hdr.sid];
        m.streams.insert(
            hdr.sid,
            StreamModel { chunks: stream.chunks.push(header_bytes(hdr) + data), ..stream },
        )
    } else {
        m.streams
    };
    SessionModel { streams, expected: Expected::Header, ..m }
}

/// The session after what was expected has been read.
pub open spec fn after_received(m: SessionModel, data: Seq<u8>) -> (SessionModel, Received) {
    match m.expected {
        Expected::Header => after_header(m, header_of(data)),
        Expected::Payload(hdr) => (after_payload(m, hdr, data), Received::Continue),
        Expected::Datagram => (
            SessionModel { expected: Expected::Header, ..m },
            Received::Continue,
        ),
    }
}

/// The streams of one connection. The side that opens them numbers its own by odd numbers.
pub struct Session {
    sessions: HashMap<u32, Stream>,
    max_frame_size: usize,
    version: u8,
    next_stream_id: u32,
    expected: Expected,
}

impl View for Session {
    type V = SessionModel;

    closed spec fn view(&self) -> SessionModel {
        SessionModel {
            streams: self.sessions@.map_values(|stream: Stream| stream@),
            max_frame_size: self.max_frame_size,
            version: self.version,
            next_stream_id: self.next_stream_id,
            expected: self.expected,
        }
    }
}

impl Session {
    /// A session without streams, whose frames hold no more than `max_frame_size` bytes.
    pub fn new(max_frame_size: usize, version: u8) -> (session: Self)
        ensures
            session@ == (SessionModel {
                streams: Map::empty(),
                max_frame_size,
                version,
                next_stream_id: 1,
                expected: Expected::Header,
            }),
    {
        let session = Session {
            sessions: HashMap::new(),
            max_frame_size,
            version,
            next_stream_id: 1,
            expected: Expected::Header,
        };
        proof {
            assert(session@.streams =~= Map::empty());
        }
        session
    }

    /// How many bytes have to be read next.
    pub fn wants(&self) -> (n: usize)
        ensures
            n == expected_len(self@.expected),
    {
        match self.expected {
            Expected::Header => HEAD_SIZE,
            Expected::Payload(hdr) => hdr.len as usize,
            Expected::Datagram => UPD_HDR_SIZE,
        }
    }

    /// Whether there is a number for one more stream.
    pub fn can_open_stream(&self) -> (can: bool)
        ensures
            can == (self@.next_stream_id + 2 <= u32::MAX),
    {
        self.next_stream_id <= u32::MAX - 2
    }

    /// Numbers a stream and makes the request that opens it. The number is used up whether or not
    /// the request can be sent.
    pub fn open_stream(&mut self) -> (opened: (Stream, SmuxRequest))
        requires
            old(self)@.next_stream_id + 2 <= u32::MAX,
        ensures
            opened.0@ == (StreamModel {
                id: old(self)@.next_stream_id,
                frame_size: old(self)@.max_frame_size,
                chunks: Seq::empty(),
                closed: false,
            }),
            opened.1.stream_id == old(self)@.next_stream_id,
            opened.1.cmd == CMD_SYN,
            bytes_view(opened.1.data) == Seq::<u8>::empty(),
            final(self)@ == after_open(old(self)@),
    {
        let stream_id: u32 = self.next_stream_id;
        self.next_stream_id = stream_id + 2;
        let stream = Stream::new(self.max_frame_size, stream_id);
        let req = SmuxRequest { stream_id, cmd: CMD_SYN, data: bytes_empty() };
        (stream, req)
    }

    /// Whether what was read can be taken: as much as `wants` said, and no header that announces
    /// more than a frame holds.
    pub fn accepts(&self, data: &[u8]) -> (yes: bool)
        ensures
            yes == acceptable(self@, data@),
    {
        if data.len() != self.wants() {
            return false;
        }
        match self.expected {
            Expected::Header => {
                let mut hdr = FrameHdr::new();
                let _ = hdr.unmarshal(data);
                hdr.version != self.version || hdr.cmd != CMD_PSH || (HEAD_SIZE as u64
                    + hdr.len as u64) <= self.max_frame_size as u64
            },
            _ => true,
        }
    }

    /// Takes what was read, which is as much as `wants` said.
    pub fn receive(&mut self, data: &[u8]) -> (received: Received)
        requires
            acceptable(old(self)@, data@),
        ensures
            (final(self)@, received) == after_received(old(self)@, data@),
    {
        match self.expected {
            Expected::Header => self.receive_header(data),
            Expected::Payload(hdr) => {
                self.receive_payload(hdr, data);
                Received::Continue
            },
            Expected::Datagram => {
                self.expected = Expected::Header;
                Received::Continue
            },
        }
    }

    fn receive_header(&mut self, data: &[u8]) -> (received: Received)
        requires
            data@.len() == HEAD_SIZE,
        ensures
            (final(self)@, received) == after_header(old(self)@, header_of(data@)),
    {
        let mut hdr = FrameHdr::new();
        let _ = hdr.unmarshal(data);
        if hdr.version != self.version {
            return Received::VersionMismatch;
        }
        let ghost m = self@;
        match hdr.cmd {
            CMD_NOP => Received::Continue,
            CMD_SYN => {
                if !self.sessions.contains_key(&hdr.sid) {
                    let stream = Stream::new(self.max_frame_size, hdr.sid);
                    self.sessions.insert(hdr.sid, stream);
                    proof {
                        assert(self@.streams =~= m.streams.insert(hdr.sid, stream@));
                    }
                }
                Received::Continue
            },
            CMD_PSH => {
                self.expected = Expected::Payload(hdr);
                Received::Continue
            },
            CMD_UDP => {
                self.expected = Expected::Datagram;
                Received::Continue
            },
            CMD_FIN => {
                if let Some(mut stream) = self.sessions.remove(&hdr.sid) {
                    stream.fin();
                    self.sessions.insert(hdr.sid, stream);
                    proof {
                        assert(self@.streams =~= m.streams.insert(hdr.sid, stream@));
                    }
                } else {
                    proof {
                        assert(self@.streams =~= m.streams);
                    }
                }
                Received::Continue
            },
            _ => Received::UnknownCommand,
        }
    }

    fn receive_payload(&mut self, hdr: FrameHdr, data: &[u8])
        ensures
            final(self)@ == after_payload(old(self)@, hdr, data@),
    {
        let ghost m = self@;
        self.expected = Expected::Header;
        if let Some(mut stream) = self.sessions.remove(&hdr.sid) {
            let mut frame: Vec<u8> = vec![0u8; HEAD_SIZE];
            hdr.marshal(frame.as_mut_slice());
            frame.extend_from_slice(data);
            proof {
                assert(frame@ =~= header_bytes(hdr) + data@);
            }
            stream.push_data(bytes_copy(frame.as_slice()));
            self.sessions.insert(hdr.sid, stream);
            proof {
                assert(self@.streams =~= m.streams.insert(hdr.sid, stream@));
            }
        } else {
            proof {
                assert(self@.streams =~= m.streams);
            }
        }
    }
}

/// The number of bytes that the writer's buffer starts with.
pub const WRITE_BUFFER_SIZE: usize = 589824;

/// The header of the frame that a request makes. The length is what two bytes can say of it.
pub open spec fn request_header(version: u8, req: SmuxRequest) -> FrameHdr {
    FrameHdr {
        version,
        cmd: req.cmd,
        sid: req.stream_id,
        len: (bytes_view(req.data).len() % 0x1_0000) as u16,
    }
}

/// What is written for a request, given what was written before.
pub open spec fn written_for(before: Seq<u8>, version: u8, req: SmuxRequest) -> Seq<u8> {
    header_bytes(request_header(version, req)) + before.skip(8) + bytes_view(req.data)
}

/// What is written for a request starts with its header, ends with its data, and has between them
/// what was written before behind the header of that.
pub proof fn law_requests_are_written_behind_each_other(
    before: Seq<u8>,
    version: u8,
    req: SmuxRequest,
)
    requires
        8 <= before.len(),
    ensures
        ({
            let all = written_for(before, version, req);
            let data = bytes_view(req.data);
            &&& all.len() == before.len() + data.len()
            &&& header_of(all).version == version && header_of(all).cmd == req.cmd
            &&& header_of(all).sid == req.stream_id
            &&& data.len() < 0x1_0000 ==> header_of(all).len == data.len()
            &&& all.subrange(8, before.len() as int) == before.skip(8)
            &&& all.skip(before.len() as int) == data
        }),
{
    let all = written_for(before, version, req);
    let hdr = request_header(version, req);
    let rest = before.skip(8) + bytes_view(req.data);
    law_header_reads_back(hdr, rest);
    assert(all =~= header_bytes(hdr) + rest);
    assert(all.subrange(8, before.len() as int) =~= before.skip(8));
    assert(all.skip(before.len() as int) =~= bytes_view(req.data));
}

/// What is written for requests. Everything is written from one buffer: each request puts its
/// header over the front and its data behind the end, and the whole buffer is written.
pub struct FrameWriter {
    version: u8,
    buf: Vec<u8>,
}

impl FrameWriter {
    pub closed spec fn version(&self) -> u8 {
        self.version
    }

    /// What was written last.
    pub closed spec fn buf(&self) -> Seq<u8> {
        self.buf@
    }

    /// A writer that has written nothing yet.
    pub fn new(version: u8) -> (writer: Self)
        ensures
            writer.version() == version,
            writer.buf() == Seq::new(WRITE_BUFFER_SIZE as nat, |i: int| 0u8),
    {
        let buf = vec![0u8; WRITE_BUFFER_SIZE];
        proof {
            assert(buf@ =~= Seq::new(WRITE_BUFFER_SIZE as nat, |i: int| 0u8));
        }
        FrameWriter { version, buf }
    }

    /// What has to be written for a request.
    pub fn frame(&mut self, req: SmuxRequest) -> (written: &[u8])
        requires
            HEAD_SIZE <= old(self).buf().len(),
        ensures
            final(self).version() == old(self).version(),
            final(self).buf() == header_bytes(request_header(old(self).version(), req)) + old(
                self,
            ).buf().skip(HEAD_SIZE as int) + bytes_view(req.data),
            final(self).buf() == written_for(old(self).buf(), old(self).version(), req),
            written@ == final(self).buf(),
    {
        let len: usize = bytes_slice(&req.data).len();
        proof {
            assert(len as u16 == len % 0x1_0000) by (bit_vector);
        }
        let hdr = FrameHdr {
            version: self.version,
            cmd: req.cmd,
            sid: req.stream_id,
            len: len as u16,
        };
        hdr.marshal(self.buf.as_mut_slice());
        let ghost marshalled = self.buf@;
        if len > 0 {
            put(&mut self.buf, req.data);
        }
        proof {
            assert(self.buf@ =~= marshalled + bytes_view(req.data));
        }
        self.buf.as_slice()
    }
}

/// The session after a stream was opened from this side.
pub open spec fn after_open(m: SessionModel) -> SessionModel {
    SessionModel { next_stream_id: (m.next_stream_id + 2) as u32, ..m }
}

/// The session after `n` streams were opened from this side.
pub open spec fn after_opens(m: SessionModel, n: nat) -> SessionModel
    decreases n,
{
    if n == 0 {
        m
    } else {
        after_open(after_opens(m, (n - 1) as nat))
    }
}

proof fn lemma_opens_count(m: SessionModel, n: nat)
    requires
        m.next_stream_id + 2 * n <= u32::MAX,
    ensures
        after_opens(m, n).next_stream_id == m.next_stream_id + 2 * n,
    decreases n,
{
    if n > 0 {
        lemma_opens_count(m, (n - 1) as nat);
    }
}

/// Streams that are opened from this side have different numbers, and all of them are odd where
/// the first is.
pub proof fn law_opened_streams_differ(m: SessionModel, i: nat, j: nat)
    requires
        i < j,
        m.next_stream_id + 2 * j <= u32::MAX,
    ensures
        after_opens(m, i).next_stream_id != after_opens(m, j).next_stream_id,
        m.next_stream_id % 2 == 1 ==> after_opens(m, i).next_stream_id % 2 == 1,
{
    lemma_opens_count(m, i);
    lemma_opens_count(m, j);
}

/// Data that a frame carries reaches its stream, behind everything that reached it before, with
/// the header in front of it; and the next frame can come.
pub proof fn law_pushed_data_arrives(m: SessionModel, hdr: FrameHdr, data: Seq<u8>)
    requires
        m.expected is Header,
        hdr.version == m.version,
        hdr.cmd == CMD_PSH,
        hdr.len == data.len(),
        m.streams.dom().contains(hdr.sid),
    ensures
        ({
            let (announced, _) = after_received(m, header_bytes(hdr));
            let (n, received) = after_received(announced, data);
            &&& expected_len(announced.expected) == data.len()
            &&& received is Continue
            &&& n.expected is Header
            &&& n.streams.dom() == m.streams.dom()
            &&& n.streams[hdr.sid].closed == m.streams[hdr.sid].closed
            &&& joined(n.streams[hdr.sid].chunks) == joined(m.streams[hdr.sid].chunks)
                + header_bytes(hdr) + data
        }),
{
    law_header_reads_back(hdr, Seq::empty());
    assert(header_bytes(hdr) + Seq::empty() =~= header_bytes(hdr));
    let before = m.streams[hdr.sid].chunks;
    law_push_appends(before, header_bytes(hdr) + data);
    assert(joined(before) + (header_bytes(hdr) + data) =~= joined(before) + header_bytes(hdr)
        + data);
    let n = after_received(after_received(m, header_bytes(hdr)).0, data).0;
    assert(n.streams.dom() =~= m.streams.dom());
}

/// A frame touches no stream but the one whose number its header gives.
pub proof fn law_frames_reach_one_stream(m: SessionModel, data: Seq<u8>, other: u32)
    requires
        match m.expected {
            Expected::Header => other != header_of(data).sid,
            Expected::Payload(hdr) => other != hdr.sid,
            Expected::Datagram => true,
        },
    ensures
        ({
            let n = after_received(m, data).0;
            &&& n.streams.dom().contains(other) == m.streams.dom().contains(other)
            &&& m.streams.dom().contains(other) ==> n.streams[other] == m.streams[other]
        }),
{
}

/// No frame removes a stream, and none reopens one.
pub proof fn law_streams_stay(m: SessionModel, data: Seq<u8>, sid: u32)
    requires
        m.streams.dom().contains(sid),
    ensures
        ({
            let n = after_received(m, data).0;
            &&& n.streams.dom().contains(sid)
            &&& m.streams[sid].closed ==> n.streams[sid].closed
        }),
{
}

/// What a header does, read from its bytes. One of another version does nothing. Command 0 opens a
/// stream where there is none of that number, which starts with nothing received; 1 ends the
/// stream, and what it received stays; 2 announces as many bytes of data as the length says; 3 does
/// nothing; 4 announces the eight bytes of a datagram's header. Every other command is refused, and
/// does nothing.
pub proof fn law_headers_are_obeyed(m: SessionModel, data: Seq<u8>, sid: u32)
    requires
        m.expected is Header,
        data.len() == 8,
        sid == data[2] + data[3] * 256 + data[4] * 0x1_0000 + data[5] * 0x100_0000,
    ensures
        ({
            let (n, received) = after_received(m, data);
            let known = m.streams.dom().contains(sid);
            &&& received is VersionMismatch <==> data[0] != m.version
            &&& received is UnknownCommand <==> data[0] == m.version && data[1] > 4
            &&& !(received is Continue) ==> n == m
            &&& n.max_frame_size == m.max_frame_size && n.version == m.version
            &&& n.next_stream_id == m.next_stream_id
            &&& data[0] == m.version ==> {
                &&& data[1] == 0 && known ==> n == m
                &&& data[1] == 0 && !known ==> {
                    &&& n.streams.dom() == m.streams.dom().insert(sid)
                    &&& n.streams[sid].id == sid
                    &&& n.streams[sid].frame_size == m.max_frame_size
                    &&& n.streams[sid].chunks.len() == 0
                    &&& !n.streams[sid].closed
                    &&& n.expected is Header
                }
                &&& data[1] == 1 ==> n.streams.dom() == m.streams.dom() && n.expected is Header
                &&& data[1] == 1 && known ==> {
                    &&& n.streams[sid].closed
                    &&& n.streams[sid].chunks == m.streams[sid].chunks
                    &&& n.streams[sid].id == m.streams[sid].id
                    &&& n.streams[sid].frame_size == m.streams[sid].frame_size
                }
                &&& data[1] == 2 ==> {
                    &&& n.streams == m.streams
                    &&& expected_len(n.expected) == data[6] + data[7] * 256
                    &&& n.expected matches Expected::Payload(hdr) && hdr.sid == sid
                }
                &&& data[1] == 3 ==> n == m
                &&& data[1] == 4 ==> n.streams == m.streams && n.expected is Datagram
                    && expected_len(n.expected) == 8
            }
        }),
{
    let n = after_received(m, data).0;
    assert(data[0] == m.version && data[1] == 0 && !m.streams.dom().contains(sid)
        ==> n.streams.dom() =~= m.streams.dom().insert(sid));
    assert(data[0] == m.version && data[1] == 1 ==> n.streams.dom() =~= m.streams.dom());
}

/// After the data of a frame, or the header of a datagram, comes the next header. Data reaches its
/// stream as one piece behind all the others, with the header in front, also where the stream was
/// ended; data of no stream and datagrams are passed over.
pub proof fn law_payloads_end_with_the_next_header(m: SessionModel, data: Seq<u8>)
    requires
        !(m.expected is Header),
    ensures
        ({
            let (n, received) = after_received(m, data);
            &&& received is Continue
            &&& n.expected is Header
            &&& expected_len(n.expected) == 8
            &&& n.streams.dom() == m.streams.dom()
            &&& n.max_frame_size == m.max_frame_size && n.version == m.version
            &&& n.next_stream_id == m.next_stream_id
            &&& match m.expected {
                Expected::Payload(hdr) => {
                    &&& !m.streams.dom().contains(hdr.sid) ==> n.streams == m.streams
                    &&& m.streams.dom().contains(hdr.sid) ==> {
                        let before = m.streams[hdr.sid];
                        let after = n.streams[hdr.sid];
                        &&& after.chunks.len() == before.chunks.len() + 1
                        &&& after.chunks.drop_last() == before.chunks
                        &&& after.chunks.last().len() == 8 + data.len()
                        &&& after.chunks.last().skip(8) == data
                        &&& header_of(after.chunks.last()) == hdr
                        &&& after.closed == before.closed && after.id == before.id
                    }
                },
                _ => n.streams == m.streams,
            }
        }),
{
    let n = after_received(m, data).0;
    assert(n.streams.dom() =~= m.streams.dom());
    if let Expected::Payload(hdr) = m.expected {
        law_header_reads_back(hdr, data);
        if m.streams.dom().contains(hdr.sid) {
            let chunk = header_bytes(hdr) + data;
            assert(chunk.skip(8) =~= data);
            assert(n.streams[hdr.sid].chunks.drop_last() =~= m.streams[hdr.sid].chunks);
        }
    }
}

/// What was read is taken wherever it is as long as was asked for, unless it is a header of this
/// version that announces data which does not fit into a frame with it.
pub proof fn law_frames_that_fit_are_accepted(m: SessionModel, data: Seq<u8>)
    requires
        m.expected is Header || m.expected is Datagram ==> data.len() == 8,
        m.expected matches Expected::Payload(hdr) ==> data.len() == hdr.len,
    ensures
        acceptable(m, data) <==> !(m.expected is Header && data[0] == m.version && data[1] == 2 && 8
            + data[6] + data[7] * 256 > m.max_frame_size),
{
}

/// The frame of a request says its version, its command, the number of its stream and how much
/// data it carries.
pub proof fn law_requests_say_what_they_carry(version: u8, req: SmuxRequest)
    ensures
        ({
            let b = header_bytes(request_header(version, req));
            &&& b.len() == 8
            &&& b[0] == version && b[1] == req.cmd
            &&& b[2] + b[3] * 256 + b[4] * 0x1_0000 + b[5] * 0x100_0000 == req.stream_id
            &&& b[6] + b[7] * 256 == bytes_view(req.data).len() % 0x1_0000
        }),
{
    law_headers_have_their_layout(request_header(version, req));
}

/// What one side frames, the other side obeys: the header of a request that carries data announces
/// exactly that data, for the stream that it was sent on.
pub proof fn law_sent_data_is_announced(m: SessionModel, version: u8, req: SmuxRequest)
    requires
        m.expected is Header,
        m.version == version,
        req.cmd == 2,
        bytes_view(req.data).len() < 0x1_0000,
    ensures
        ({
            let n = after_received(m, header_bytes(request_header(version, req))).0;
            &&& expected_len(n.expected) == bytes_view(req.data).len()
            &&& n.expected matches Expected::Payload(hdr) && hdr.sid == req.stream_id
        }),
{
    let hdr = request_header(version, req);
    law_header_reads_back(hdr, Seq::empty());
    assert(header_bytes(hdr) + Seq::empty() =~= header_bytes(hdr));
}

/// Opening a stream uses up its number and the one behind it, and changes nothing else.
pub proof fn law_opening_takes_two_numbers(m: SessionModel)
    requires
        m.next_stream_id + 2 <= u32::MAX,
    ensures
        after_open(m).next_stream_id == m.next_stream_id + 2,
        after_open(m).streams == m.streams,
        after_open(m).expected == m.expected,
        after_open(m).version == m.version,
        after_open(m).max_frame_size == m.max_frame_size,
{
}

} // verus!
