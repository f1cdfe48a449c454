//! Many streams over one connection: the frames that carry them.

pub mod cipher;
pub mod fec;
pub mod session;
pub mod stream;

use crate::wire::{law_le16_reads_back, law_le32_reads_back, le16, le32, read_le16, read_le32};
use vstd::prelude::*;

verus! {

/// The length of a frame header: version, command, length and stream number.
pub const HEAD_SIZE: usize = 8;

/// The length of the header of a datagram.
pub const UPD_HDR_SIZE: usize = 8;

/// Opens a stream.
pub const CMD_SYN: u8 = 0;

/// Ends a stream.
pub const CMD_FIN: u8 = 1;

/// Carries data of a stream.
pub const CMD_PSH: u8 = 2;

/// Nothing.
pub const CMD_NOP: u8 = 3;

/// Announces the header of a datagram.
pub const CMD_UDP: u8 = 4;

/// The header of a frame.
#[derive(Debug, Clone, Copy, PartialEq, Eq, Structural)]
pub struct FrameHdr {
    pub version: u8,
    pub cmd: u8,
    pub sid: u32,
    pub len: u16,
}

/// There are fewer bytes than a header has.
#[derive(Debug, Clone, Copy, PartialEq, Eq, Structural)]
pub struct InvalidHead;

/// The bytes of a header.
pub open spec fn header_bytes(hdr: FrameHdr) -> Seq<u8> {
    seq![hdr.version, hdr.cmd] + le32(hdr.sid) + le16(hdr.len)
}

/// The header that bytes start with.
pub open spec fn header_of(data: Seq<u8>) -> FrameHdr {
    FrameHdr {
        version: data[0],
        cmd: data[1],
        sid: (data[5] * 0x100_0000 + data[4] * 0x1_0000 + data[3] * 256 + data[2]) as u32,
        len: (data[7] * 256 + data[6]) as u16,
    }
}

impl FrameHdr {
    /// A header with everything zero.
    pub fn new() -> (hdr: Self)
        ensures
            hdr == (FrameHdr { version: 0, cmd: 0, sid: 0, len: 0 }),
    {
        FrameHdr { version: 0, cmd: 0, sid: 0, len: 0 }
    }

    /// Writes the header to the front of `buf`.
    pub fn marshal(&self, buf: &mut [u8])
        requires
            HEAD_SIZE <= old(buf)@.len(),
        ensures
            final(buf)@ == header_bytes(*self) + old(buf)@.skip(HEAD_SIZE as int),
    {
        buf[0] = self.version;
        buf[1] = self.cmd;
        buf[2] = (self.sid % 256) as u8;
        buf[3] = (self.sid / 256 % 256) as u8;
        buf[4] = (self.sid / 0x1_0000 % 256) as u8;
        buf[5] = (self.sid / 0x100_0000) as u8;
        buf[6] = (self.len % 256) as u8;
        buf[7] = (self.len / 256) as u8;
        proof {
            assert(buf@ =~= header_bytes(*self) + old(buf)@.skip(HEAD_SIZE as int));
        }
    }

    /// Reads a header from the front of `buf`. It fails exactly where `buf` is shorter than one,
    /// and then nothing changes.
    pub fn unmarshal(&mut self, buf: &[u8]) -> (res: Result<(), InvalidHead>)
        ensures
            res is Ok <==> HEAD_SIZE <= buf@.len(),
            res is Ok ==> *final(self) == header_of(buf@),
            res is Ok ==> header_bytes(*final(self)) == buf@.take(HEAD_SIZE as int),
            res is Err ==> *final(self) == *old(self),
    {
        if buf.len() < HEAD_SIZE {
            return Err(InvalidHead);
        }
        self.version = buf[0];
        self.cmd = buf[1];
        self.sid = read_le32(buf[2], buf[3], buf[4], buf[5]);
        self.len = read_le16(buf[6], buf[7]);
        proof {
            assert(header_bytes(*self) =~= buf@.take(HEAD_SIZE as int));
        }
        Ok(())
    }
}

/// What `marshal` writes in front of anything, `unmarshal` reads back.
pub proof fn law_header_reads_back(hdr: FrameHdr, rest: Seq<u8>)
    ensures
        header_bytes(hdr).len() == HEAD_SIZE,
        header_of(header_bytes(hdr) + rest) == hdr,
{
    law_le32_reads_back(hdr.sid);
    law_le16_reads_back(hdr.len);
}

/// A header takes eight bytes: the version, the command, the number of the stream in four and the
/// length in two, each with its least significant byte first.
pub proof fn law_headers_have_their_layout(hdr: FrameHdr)
    ensures
        ({
            let b = header_bytes(hdr);
            &&& b.len() == 8
            &&& b[0] == hdr.version
            &&& b[1] == hdr.cmd
            &&& b[2] + b[3] * 256 + b[4] * 0x1_0000 + b[5] * 0x100_0000 == hdr.sid
            &&& b[6] + b[7] * 256 == hdr.len
        }),
{
    law_le32_reads_back(hdr.sid);
    law_le16_reads_back(hdr.len);
}

/// The header of some bytes is read from the first eight of them only, at the places where it is
/// written.
pub proof fn law_headers_are_read_where_they_stand(data: Seq<u8>)
    requires
        8 <= data.len(),
    ensures
        ({
            let hdr = header_of(data);
            &&& hdr.version == data[0]
            &&& hdr.cmd == data[1]
            &&& hdr.sid == data[2] + data[3] * 256 + data[4] * 0x1_0000 + data[5] * 0x100_0000
            &&& hdr.len == data[6] + data[7] * 256
        }),
{
}

} // verus!
