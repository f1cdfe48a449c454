//! One stream of a session.

use crate::buffer::{bytes_copy, bytes_slice, bytes_split_to, bytes_view, copy_front};
use crate::smux::CMD_PSH;
use crate::stack::byte_ring::least;
use bytes::Bytes;
use std::collections::VecDeque;
use vstd::prelude::*;

verus! {

/// A request to send something on a stream.
pub struct SmuxRequest {
    pub stream_id: u32,
    pub cmd: u8,
    pub data: Bytes,
}

/// A stream as a value.
pub struct StreamModel {
    pub id: u32,
    /// The most bytes that one frame takes.
    pub frame_size: usize,
    /// What was received and not read yet, in the pieces in which it came.
    pub chunks: Seq<Seq<u8>>,
    pub closed: bool,
}

/// What pieces hold when they are put together.
pub open spec fn joined(chunks: Seq<Seq<u8>>) -> Seq<u8>
    decreases chunks.len(),
{
    if chunks.len() == 0 {
        Seq::empty()
    } else {
        chunks[0] + joined(chunks.drop_first())
    }
}

/// How many bytes a read of at most `want` gives: no more than the first piece holds.
pub open spec fn readable(chunks: Seq<Seq<u8>>, want: nat) -> nat {
    if chunks.len() == 0 {
        0
    } else {
        least(want, chunks[0].len())
    }
}

/// The pieces after `n` bytes of the first were read.
pub open spec fn after_read(chunks: Seq<Seq<u8>>, n: nat) -> Seq<Seq<u8>> {
    if chunks.len() == 0 {
        chunks
    } else if n == chunks[0].len() {
        chunks.drop_first()
    } else {
        chunks.update(0, chunks[0].skip(n as int))
    }
}

/// What a read found.
#[derive(Debug, Clone, Copy, PartialEq, Eq, Structural)]
pub enum StreamRead {
    /// The stream is over.
    Closed,
    /// Nothing can be read yet.
    Pending,
    /// So many bytes were read.
    Read(usize),
}

/// How much of the front of some data one frame takes.
pub open spec fn frame_part(data: Seq<u8>, frame_size: usize) -> Seq<u8> {
    if data.len() <= frame_size {
        data
    } else {
        data.take(frame_size as int)
    }
}

/// A frame takes the front of what is to be sent: all of it where it fits, and else as much as
/// fits, and nothing but that.
pub proof fn law_frames_take_the_front(data: Seq<u8>, frame_size: usize)
    ensures
        frame_part(data, frame_size) + data.skip(frame_part(data, frame_size).len() as int) == data,
        frame_part(data, frame_size).len() <= frame_size,
        data.len() <= frame_size ==> frame_part(data, frame_size) == data,
        data.len() > frame_size ==> frame_part(data, frame_size).len() == frame_size,
{
    let part = frame_part(data, frame_size);
    assert(part + data.skip(part.len() as int) =~= data);
}

/// The stream, what is said, and what `buf` holds after a read.
pub open spec fn polled(stream: StreamModel, buf: Seq<u8>) -> (StreamModel, StreamRead, Seq<u8>) {
    let n = readable(stream.chunks, buf.len());
    if stream.closed {
        (stream, StreamRead::Closed, buf)
    } else {
        (
            StreamModel { chunks: after_read(stream.chunks, n), ..stream },
            if n == 0 {
                StreamRead::Pending
            } else {
                StreamRead::Read(n as usize)
            },
            if n == 0 {
                buf
            } else {
                stream.chunks[0].take(n as int) + buf.skip(n as int)
            },
        )
    }
}

/// The stream is over, and takes nothing more.
#[derive(Debug, Clone, Copy, PartialEq, Eq, Structural)]
pub struct StreamClosed;

/// One stream: what was received on it, and how what is sent on it is framed.
pub struct Stream {
    id: u32,
    frame_size: usize,
    buffer: VecDeque<Bytes>,
    closed: bool,
}

impl View for Stream {
    type V = StreamModel;

    closed spec fn view(&self) -> StreamModel {
        StreamModel {
            id: self.id,
            frame_size: self.frame_size,
            chunks: self.buffer@.map_values(|bytes: Bytes| bytes_view(bytes)),
            closed: self.closed,
        }
    }
}

impl Stream {
    /// A stream on which nothing was received.
    pub fn new(frame_size: usize, id: u32) -> (stream: Self)
        ensures
            stream@ == (StreamModel { id, frame_size, chunks: Seq::empty(), closed: false }),
    {
        let stream = Stream { id, frame_size, buffer: VecDeque::new(), closed: false };
        proof {
            assert(stream@.chunks =~= Seq::empty());
        }
        stream
    }

    /// Takes data that was received.
    pub fn push_data(&mut self, data: Bytes)
        ensures
            final(self)@ == (StreamModel {
                chunks: old(self)@.chunks.push(bytes_view(data)),
                ..old(self)@
            }),
    {
        self.buffer.push_back(data);
        proof {
            assert(self@.chunks =~= old(self)@.chunks.push(bytes_view(data)));
        }
    }

    /// Ends the stream.
    pub fn fin(&mut self)
        ensures
            final(self)@ == (StreamModel { closed: true, ..old(self)@ }),
    {
        self.closed = true;
    }

    /// Moves the front of the first piece that was received to the front of `buf`.
    pub fn try_read(&mut self, buf: &mut [u8]) -> (n: usize)
        ensures
            n == readable(old(self)@.chunks, old(buf)@.len()),
            final(buf)@ == (if n == 0 {
                old(buf)@
            } else {
                old(self)@.chunks[0].take(n as int) + old(buf)@.skip(n as int)
            }),
            final(self)@ == (StreamModel {
                chunks: after_read(old(self)@.chunks, n as nat),
                ..old(self)@
            }),
    {
        match self.buffer.pop_front() {
            None => {
                proof {
                    assert(self@.chunks =~= old(self)@.chunks);
                }
                0
            },
            Some(mut first) => {
                let ghost chunk = bytes_view(first);
                let ghost chunks = old(self)@.chunks;
                proof {
                    assert(chunk == chunks[0]);
                    assert(self@.chunks =~= chunks.drop_first());
                }
                let chunk_len: usize = bytes_slice(&first).len();
                let want: usize = buf.len();
                let len: usize = if want < chunk_len {
                    want
                } else {
                    chunk_len
                };
                copy_front(buf, bytes_slice(&first), len);
                proof {
                    if len == 0 {
                        assert(buf@ =~= old(buf)@);
                    }
                }
                if len < chunk_len {
                    let _ = bytes_split_to(&mut first, len);
                    self.buffer.push_front(first);
                    proof {
                        assert(self@.chunks =~= chunks.update(0, chunk.skip(len as int)));
                    }
                }
                len
            },
        }
    }

    /// Reads what was received. A stream that was ended gives nothing more, not even what it
    /// still holds.
    pub fn poll_read(&mut self, buf: &mut [u8]) -> (read: StreamRead)
        ensures
            ({
                let n = readable(old(self)@.chunks, old(buf)@.len());
                if old(self)@.closed {
                    &&& read is Closed
                    &&& final(self)@ == old(self)@
                    &&& final(buf)@ == old(buf)@
                } else {
                    &&& read == (if n == 0 {
                        StreamRead::Pending
                    } else {
                        StreamRead::Read(n as usize)
                    })
                    &&& final(self)@ == (StreamModel {
                        chunks: after_read(old(self)@.chunks, n),
                        ..old(self)@
                    })
                    &&& final(buf)@ == (if n == 0 {
                        old(buf)@
                    } else {
                        old(self)@.chunks[0].take(n as int) + old(buf)@.skip(n as int)
                    })
                }
            }),
            (final(self)@, read, final(buf)@) == polled(old(self)@, old(buf)@),
    {
        if self.closed {
            return StreamRead::Closed;
        }
        let n: usize = self.try_read(buf);
        if n == 0 {
            StreamRead::Pending
        } else {
            StreamRead::Read(n)
        }
    }

    /// The request that sends the front of `buf`, as much as one frame takes, and how much that
    /// is.
    pub fn try_send(&self, buf: &[u8]) -> (sending: (SmuxRequest, usize))
        ensures
            sending.1 == least(buf@.len(), self@.frame_size as nat),
            sending.0.stream_id == self@.id,
            sending.0.cmd == CMD_PSH,
            bytes_view(sending.0.data) == buf@.take(sending.1 as int),
            bytes_view(sending.0.data) == frame_part(buf@, self@.frame_size),
    {
        let len: usize = if buf.len() > self.frame_size {
            self.frame_size
        } else {
            buf.len()
        };
        let front = &buf[0..len];
        proof {
            assert(front@ =~= buf@.take(len as int));
            assert(front@ =~= frame_part(buf@, self@.frame_size));
        }
        let req = SmuxRequest { stream_id: self.id, cmd: CMD_PSH, data: bytes_copy(front) };
        (req, len)
    }

    /// What has to be sent for a write, where the stream still takes any.
    pub fn poll_write(&self, buf: &[u8]) -> (sending: Result<(SmuxRequest, usize), StreamClosed>)
        ensures
            sending is Ok <==> !self@.closed,
            sending matches Ok((req, n)) ==> {
                &&& n == least(buf@.len(), self@.frame_size as nat)
                &&& req.stream_id == self@.id
                &&& req.cmd == CMD_PSH
                &&& bytes_view(req.data) == buf@.take(n as int)
                &&& bytes_view(req.data) == frame_part(buf@, self@.frame_size)
            },
    {
        if self.closed {
            return Err(StreamClosed);
        }
        Ok(self.try_send(buf))
    }

    /// Ends the stream from this side.
    pub fn poll_shutdown(&mut self)
        ensures
            final(self)@ == (StreamModel { closed: true, ..old(self)@ }),
    {
        self.closed = true;
    }
}

/// A read takes bytes from the front of what was received, in order, and leaves all the others.
pub proof fn law_read_takes_the_front(chunks: Seq<Seq<u8>>, want: nat)
    ensures
        ({
            let n = readable(chunks, want);
            let front = if n == 0 {
                Seq::empty()
            } else {
                chunks[0].take(n as int)
            };
            &&& n <= want
            &&& front.len() == n
            &&& front + joined(after_read(chunks, n)) == joined(chunks)
        }),
{
    let n = readable(chunks, want);
    if chunks.len() > 0 {
        let rest = chunks.drop_first();
        let after = after_read(chunks, n);
        if n == chunks[0].len() {
            assert(chunks[0].take(n as int) =~= chunks[0]);
            assert(n == 0 ==> chunks[0] + joined(rest) =~= joined(rest));
            assert(n == 0 ==> Seq::<u8>::empty() + joined(rest) =~= joined(rest));
        } else {
            assert(after.drop_first() =~= rest);
            assert(chunks[0].take(n as int) + (chunks[0].skip(n as int) + joined(rest))
                =~= chunks[0] + joined(rest));
            assert(n == 0 ==> chunks[0].skip(0) =~= chunks[0]);
            assert(n == 0 ==> Seq::<u8>::empty() + joined(chunks) =~= joined(chunks));
        }
    } else {
        assert(Seq::<u8>::empty() + joined(chunks) =~= joined(chunks));
    }
}

/// Data that was received comes after everything that was received before.
pub proof fn law_push_appends(chunks: Seq<Seq<u8>>, data: Seq<u8>)
    ensures
        joined(chunks.push(data)) == joined(chunks) + data,
    decreases chunks.len(),
{
    let pushed = chunks.push(data);
    if chunks.len() == 0 {
        assert(pushed.drop_first() =~= chunks);
        assert(data + Seq::<u8>::empty() =~= Seq::<u8>::empty() + data);
    } else {
        law_push_appends(chunks.drop_first(), data);
        assert(pushed.drop_first() =~= chunks.drop_first().push(data));
        assert(chunks[0] + (joined(chunks.drop_first()) + data) =~= chunks[0] + joined(
            chunks.drop_first(),
        ) + data);
    }
}

/// A read gives as much as it wants or as the first piece holds, and so something wherever there
/// is something to give. A piece that was read up is gone, and the pieces behind it stay.
pub proof fn law_reads_give_what_they_can(chunks: Seq<Seq<u8>>, want: nat)
    ensures
        ({
            let n = readable(chunks, want);
            let after = after_read(chunks, n);
            &&& chunks.len() == 0 ==> n == 0 && after == chunks
            &&& chunks.len() > 0 ==> {
                &&& n <= want && n <= chunks[0].len()
                &&& n == want || n == chunks[0].len()
                &&& n == chunks[0].len() ==> after == chunks.drop_first()
                &&& n < chunks[0].len() ==> after.len() == chunks.len() && after[0]
                    == chunks[0].skip(n as int) && after.drop_first() == chunks.drop_first()
            }
        }),
{
    if chunks.len() > 0 && readable(chunks, want) < chunks[0].len() {
        assert(after_read(chunks, readable(chunks, want)).drop_first() =~= chunks.drop_first());
    }
}

/// Pieces that are put together are one after the other, whole.
pub proof fn law_pieces_are_joined_in_order(a: Seq<Seq<u8>>, b: Seq<Seq<u8>>, piece: Seq<u8>)
    ensures
        joined(Seq::empty()) == Seq::<u8>::empty(),
        joined(seq![piece]) == piece,
        joined(a + b) == joined(a) + joined(b),
    decreases a.len(),
{
    assert(seq![piece].drop_first() =~= Seq::empty());
    assert(piece + joined(Seq::<Seq<u8>>::empty()) =~= piece);
    reveal_with_fuel(joined, 2);
    if a.len() == 0 {
        assert(a + b =~= b);
        assert(joined(a) + joined(b) =~= joined(b));
    } else {
        law_pieces_are_joined_in_order(a.drop_first(), b, piece);
        assert((a + b).drop_first() =~= a.drop_first() + b);
        assert(a[0] + (joined(a.drop_first()) + joined(b)) =~= a[0] + joined(a.drop_first())
            + joined(b));
    }
}

/// A stream that was ended gives nothing more. Any other gives the front of what was received,
/// which it then no longer holds, into the front of the buffer; it gives something wherever its
/// first piece and the buffer are not empty.
pub proof fn law_polls_give_the_front(stream: StreamModel, buf: Seq<u8>)
    requires
        buf.len() <= usize::MAX,
    ensures
        ({
            let (after, read, content) = polled(stream, buf);
            &&& after.id == stream.id && after.frame_size == stream.frame_size
            &&& after.closed == stream.closed
            &&& content.len() == buf.len()
            &&& read is Closed <==> stream.closed
            &&& match read {
                StreamRead::Read(n) => {
                    &&& 0 < n <= buf.len()
                    &&& content.take(n as int) + joined(after.chunks) == joined(stream.chunks)
                    &&& content.skip(n as int) == buf.skip(n as int)
                },
                StreamRead::Pending => {
                    &&& content == buf
                    &&& joined(after.chunks) == joined(stream.chunks)
                    &&& stream.chunks.len() == 0 || stream.chunks[0].len() == 0 || buf.len() == 0
                },
                StreamRead::Closed => after == stream && content == buf,
            }
        }),
{
    let n = readable(stream.chunks, buf.len());
    law_read_takes_the_front(stream.chunks, buf.len());
    if !stream.closed {
        if n > 0 {
            let content = stream.chunks[0].take(n as int) + buf.skip(n as int);
            assert(content.take(n as int) =~= stream.chunks[0].take(n as int));
            assert(content.skip(n as int) =~= buf.skip(n as int));
        } else {
            assert(Seq::<u8>::empty() + joined(after_read(stream.chunks, n)) =~= joined(
                after_read(stream.chunks, n),
            ));
        }
    }
}

} // verus!
