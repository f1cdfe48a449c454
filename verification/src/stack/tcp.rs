//! TCP connections of the user-space stack: what one side of the program writes and reads, and
//! how the stack's socket is kept in step with it.

use crate::stack::byte_ring::{
    least, ring_bytes, ring_capacity, ring_dequeue_slice, ring_enqueue_slice, ring_is_empty,
    ring_is_full, ring_new, room,
};
use crate::stack::socket::{
    abort, can_recv, can_send, close, may_recv, recv_into, send_from, send_queue, socket_model,
    socket_received, socket_settings, socket_unsent, state, SocketModel, TcpState,
};
use smoltcp::socket::tcp::Socket;
use smoltcp::storage::RingBuffer;
use vstd::prelude::*;

verus! {

/// Size of the buffer for bytes on their way to the peer. Holds 5 AEAD packets.
pub const DEFAULT_TCP_SEND_BUFFER_SIZE: u32 = 131072;

/// Size of the buffer for bytes on their way from the peer. Holds 5 AEAD packets.
pub const DEFAULT_TCP_RECV_BUFFER_SIZE: u32 = 131072;

/// How long the stack sleeps where no timer of its own is due, in microseconds.
pub const IDLE_WAIT_MICROS: u64 = 5000;

/// How far one half of a connection has been shut down.
#[derive(Debug, Clone, Copy, PartialEq, Eq, Structural)]
pub enum TcpSocketState {
    /// In use.
    Normal,
    /// To be closed once everything written has gone out.
    Close,
    /// The closing segment has been handed to the stack.
    Closing,
    /// Over.
    Closed,
}

impl TcpSocketState {
    /// The states in the order in which a half passes through them.
    pub open spec fn rank(self) -> int {
        match self {
            TcpSocketState::Normal => 0,
            TcpSocketState::Close => 1,
            TcpSocketState::Closing => 2,
            TcpSocketState::Closed => 3,
        }
    }
}

/// The two kinds of stack, which differ in whom a new wait wakes and in when a shutdown is done.
#[derive(Debug, Clone, Copy, PartialEq, Eq, Structural)]
pub enum Manner {
    /// A new wait wakes the task that waited before, if it is another one. A shutdown is done
    /// once the write half is closed.
    Shared,
    /// A new wait wakes the task that waited before, if it is the same one. A shutdown is done as
    /// soon as it has been asked for.
    Threaded,
}

impl Manner {
    /// The task that a new wait wakes, given the one that waited before and whether it is the
    /// same.
    pub open spec fn woken<W>(self, before: Option<W>, same_task: bool) -> Option<W> {
        if same_task == (self is Threaded) {
            before
        } else {
            None
        }
    }

    /// Whether a shutdown is done.
    pub open spec fn shut_down(self, send_state: TcpSocketState) -> bool {
        match self {
            Manner::Shared => send_state is Closed,
            Manner::Threaded => send_state is Close,
        }
    }

    fn pick_woken<W>(self, before: Option<W>, same_task: bool) -> (wake: Option<W>)
        ensures
            wake == self.woken(before, same_task),
    {
        let wakes = match self {
            Manner::Shared => !same_task,
            Manner::Threaded => same_task,
        };
        if wakes {
            before
        } else {
            None
        }
    }

    fn is_shut_down(self, send_state: TcpSocketState) -> (done: bool)
        ensures
            done == self.shut_down(send_state),
    {
        match self {
            Manner::Shared => send_state == TcpSocketState::Closed,
            Manner::Threaded => send_state == TcpSocketState::Close,
        }
    }
}

/// A connection as a value. `W` is what wakes a waiting task.
pub struct ControlModel<W> {
    pub manner: Manner,
    /// Written by the program, not yet given to the socket.
    pub send: Seq<u8>,
    pub send_capacity: nat,
    pub send_waker: Option<W>,
    pub send_state: TcpSocketState,
    /// Taken from the socket, not yet read by the program.
    pub recv: Seq<u8>,
    pub recv_capacity: nat,
    pub recv_waker: Option<W>,
    pub recv_state: TcpSocketState,
}

/// What came of looking after one connection.
pub struct Serviced<W> {
    /// The socket is closed and has to leave the stack.
    pub remove: bool,
    pub wake_sender: Option<W>,
    pub wake_receiver: Option<W>,
}

/// What a read found.
pub enum ReadPoll<W> {
    /// `n` bytes were read; none means the end of the stream or that none were asked for.
    /// `notify` says that the stack has room again.
    Ready { n: usize, notify: bool },
    /// There is nothing yet. `wake` is a task that waited here before.
    Pending { wake: Option<W> },
}

/// What a write came to.
pub enum WritePoll<W> {
    /// `n` bytes were taken. `notify` says that the stack has something to send.
    Ready { n: usize, notify: bool },
    /// There is no room. `wake` is a task that waited here before.
    Pending { wake: Option<W> },
    /// The write half is shut down.
    BrokenPipe,
}

/// What a shutdown came to.
pub enum ShutdownPoll<W> {
    /// The write half is closed.
    Ready,
    /// The stack has to close it first, and has to be notified. `wake` is a task that waited
    /// here before.
    Pending { wake: Option<W> },
}

/// A half that is in use is to be closed; any other stays as it is.
pub open spec fn closing(state: TcpSocketState) -> TcpSocketState {
    if state is Normal {
        TcpSocketState::Close
    } else {
        state
    }
}

/// The connection after it was given up.
pub open spec fn released<W>(c: ControlModel<W>) -> ControlModel<W> {
    ControlModel { recv_state: closing(c.recv_state), send_state: closing(c.send_state), ..c }
}

/// The connection, what is said, and what `buf` holds after a read into its front.
pub open spec fn after_read<W>(c: ControlModel<W>, buf: Seq<u8>, waker: W, same_task: bool) -> (
    ControlModel<W>,
    ReadPoll<W>,
    Seq<u8>,
) {
    if c.recv.len() > 0 {
        let n = least(buf.len(), c.recv.len());
        (
            ControlModel { recv: c.recv.skip(n as int), ..c },
            ReadPoll::Ready { n: n as usize, notify: n > 0 },
            c.recv.take(n as int) + buf.skip(n as int),
        )
    } else if c.recv_state is Closed {
        (c, ReadPoll::Ready { n: 0, notify: false }, buf)
    } else {
        (
            ControlModel { recv_waker: Some(waker), ..c },
            ReadPoll::Pending { wake: c.manner.woken(c.recv_waker, same_task) },
            buf,
        )
    }
}

/// The connection and what is said after a write of the front of `data`.
pub open spec fn after_write<W>(c: ControlModel<W>, data: Seq<u8>, waker: W, same_task: bool) -> (
    ControlModel<W>,
    WritePoll<W>,
) {
    let free = room(c.send.len(), c.send_capacity);
    if !(c.send_state is Normal) {
        (c, WritePoll::BrokenPipe)
    } else if free == 0 {
        (
            ControlModel { send_waker: Some(waker), ..c },
            WritePoll::Pending { wake: c.manner.woken(c.send_waker, same_task) },
        )
    } else {
        let n = least(data.len(), free);
        (
            ControlModel { send: c.send + data.take(n as int), ..c },
            WritePoll::Ready { n: n as usize, notify: n > 0 },
        )
    }
}

/// The connection and what is said after its write half was to be shut down.
pub open spec fn after_shutdown<W>(c: ControlModel<W>, waker: W, same_task: bool) -> (
    ControlModel<W>,
    ShutdownPoll<W>,
) {
    if c.manner.shut_down(c.send_state) {
        (c, ShutdownPoll::Ready)
    } else {
        (
            ControlModel { send_waker: Some(waker), send_state: closing(c.send_state), ..c },
            ShutdownPoll::Pending { wake: c.manner.woken(c.send_waker, same_task) },
        )
    }
}

/// Whether a socket whose receive half is over is in a state in which that is final.
pub open spec fn peer_finished(state: TcpState) -> bool {
    !(state is Listen || state is SynReceived || state is Established || state is FinWait1
        || state is FinWait2)
}

/// How many bytes pass from the socket to the program's side.
pub open spec fn inbound<W>(c: ControlModel<W>, s: SocketModel) -> nat {
    least(s.received.len(), room(c.recv.len(), c.recv_capacity))
}

/// How many bytes pass from the program's side to the socket.
pub open spec fn outbound<W>(c: ControlModel<W>, s: SocketModel) -> nat {
    if s.state.may_send() {
        least(c.send.len(), room(s.unsent.len(), s.send_capacity))
    } else {
        0
    }
}

/// Whether the write half is to be closed now: asked for, and nothing is left to send.
pub open spec fn closes_now<W>(c: ControlModel<W>, s: SocketModel) -> bool {
    c.send_state is Close && s.unsent.len() == 0 && c.send.len() == 0
}

/// The socket after the write half was closed where that is due.
pub open spec fn half_closed<W>(c: ControlModel<W>, s: SocketModel) -> SocketModel {
    if closes_now(c, s) {
        SocketModel { state: s.state.after_close(), ..s }
    } else {
        s
    }
}

/// The socket after it was looked after.
pub open spec fn serviced_socket<W>(c: ControlModel<W>, s: SocketModel) -> SocketModel {
    if s.state is Closed {
        s
    } else {
        let h = half_closed(c, s);
        SocketModel {
            received: h.received.skip(inbound(c, h) as int),
            unsent: h.unsent + c.send.take(outbound(c, h) as int),
            ..h
        }
    }
}

/// Whether looking after the socket finds that the peer will send nothing more.
pub open spec fn finds_end<W>(c: ControlModel<W>, s: SocketModel) -> bool {
    let h = half_closed(c, s);
    &&& c.recv_state is Normal
    &&& !h.state.may_recv(h.received.skip(inbound(c, h) as int))
    &&& peer_finished(h.state)
}

/// Whether a reader can go on after the socket was looked after.
pub open spec fn wakes_receiver<W>(c: ControlModel<W>, s: SocketModel) -> bool {
    s.state is Closed || inbound(c, half_closed(c, s)) > 0 || finds_end(c, s)
}

/// Whether a writer can go on after the socket was looked after.
pub open spec fn wakes_sender<W>(c: ControlModel<W>, s: SocketModel) -> bool {
    s.state is Closed || outbound(c, half_closed(c, s)) > 0
}

/// The connection after its socket was looked after.
pub open spec fn serviced_control<W>(c: ControlModel<W>, s: SocketModel) -> ControlModel<W> {
    let h = half_closed(c, s);
    let recv_waker = if wakes_receiver(c, s) {
        None
    } else {
        c.recv_waker
    };
    let send_waker = if wakes_sender(c, s) {
        None
    } else {
        c.send_waker
    };
    if s.state is Closed {
        ControlModel {
            send_state: TcpSocketState::Closed,
            recv_state: TcpSocketState::Closed,
            send_waker,
            recv_waker,
            ..c
        }
    } else {
        ControlModel {
            send: c.send.skip(outbound(c, h) as int),
            send_state: if closes_now(c, s) {
                TcpSocketState::Closing
            } else {
                c.send_state
            },
            send_waker,
            recv: c.recv + h.received.take(inbound(c, h) as int),
            recv_state: if finds_end(c, s) {
                TcpSocketState::Closed
            } else {
                c.recv_state
            },
            recv_waker,
            ..c
        }
    }
}

/// One connection: the bytes between the program and the stack's socket, and the tasks that wait
/// for them.
#[verifier::reject_recursive_types(W)]
pub struct TcpSocketControl<W> {
    manner: Manner,
    send_buffer: RingBuffer<'static, u8>,
    send_waker: Option<W>,
    recv_buffer: RingBuffer<'static, u8>,
    recv_waker: Option<W>,
    recv_state: TcpSocketState,
    send_state: TcpSocketState,
}

impl<W> View for TcpSocketControl<W> {
    type V = ControlModel<W>;

    closed spec fn view(&self) -> ControlModel<W> {
        ControlModel {
            manner: self.manner,
            send: ring_bytes(self.send_buffer),
            send_capacity: ring_capacity(self.send_buffer),
            send_waker: self.send_waker,
            send_state: self.send_state,
            recv: ring_bytes(self.recv_buffer),
            recv_capacity: ring_capacity(self.recv_buffer),
            recv_waker: self.recv_waker,
            recv_state: self.recv_state,
        }
    }
}

impl<W> TcpSocketControl<W> {
    /// A fresh connection with buffers of the given sizes.
    pub fn new(manner: Manner, send_buffer_size: usize, recv_buffer_size: usize) -> (control: Self)
        ensures
            control@ == (ControlModel::<W> {
                manner,
                send: Seq::empty(),
                send_capacity: send_buffer_size as nat,
                send_waker: None,
                send_state: TcpSocketState::Normal,
                recv: Seq::empty(),
                recv_capacity: recv_buffer_size as nat,
                recv_waker: None,
                recv_state: TcpSocketState::Normal,
            }),
    {
        TcpSocketControl {
            manner,
            send_buffer: ring_new(vec![0u8; send_buffer_size]),
            send_waker: None,
            recv_buffer: ring_new(vec![0u8; recv_buffer_size]),
            recv_waker: None,
            recv_state: TcpSocketState::Normal,
            send_state: TcpSocketState::Normal,
        }
    }

    /// The task that waits for something to read.
    pub fn recv_waker(&self) -> (waker: &Option<W>)
        ensures
            *waker == self@.recv_waker,
    {
        &self.recv_waker
    }

    /// The task that waits for room to write or for the write half to close.
    pub fn send_waker(&self) -> (waker: &Option<W>)
        ensures
            *waker == self@.send_waker,
    {
        &self.send_waker
    }

    /// How far the read half has been shut down.
    pub fn recv_state(&self) -> (state: TcpSocketState)
        ensures
            state == self@.recv_state,
    {
        self.recv_state
    }

    /// How far the write half has been shut down.
    pub fn send_state(&self) -> (state: TcpSocketState)
        ensures
            state == self@.send_state,
    {
        self.send_state
    }

    /// Gives the connection up: both halves that are still in use are to be closed.
    pub fn release(&mut self)
        ensures
            final(self)@ == released(old(self)@),
    {
        if self.recv_state == TcpSocketState::Normal {
            self.recv_state = TcpSocketState::Close;
        }
        if self.send_state == TcpSocketState::Normal {
            self.send_state = TcpSocketState::Close;
        }
    }

    /// Reads what was received into the front of `buf`. Where there is nothing, `waker` is left
    /// to be woken, unless the stream is over. `same_task` says whether a task that was left
    /// before is the one that reads now.
    pub fn poll_read(&mut self, buf: &mut [u8], waker: W, same_task: bool) -> (poll: ReadPoll<W>)
        ensures
            (final(self)@, poll, final(buf)@) == after_read(
                old(self)@,
                old(buf)@,
                waker,
                same_task,
            ),
    {
        if ring_is_empty(&self.recv_buffer) {
            if self.recv_state == TcpSocketState::Closed {
                return ReadPoll::Ready { n: 0, notify: false };
            }
            let before = self.recv_waker.take();
            self.recv_waker = Some(waker);
            return ReadPoll::Pending { wake: self.manner.pick_woken(before, same_task) };
        }
        let n: usize = ring_dequeue_slice(&mut self.recv_buffer, buf);
        ReadPoll::Ready { n, notify: n > 0 }
    }

    /// Queues the front of `buf` to be sent. Where there is no room, `waker` is left to be woken.
    /// `same_task` is as for `poll_read`.
    pub fn poll_write(&mut self, buf: &[u8], waker: W, same_task: bool) -> (poll: WritePoll<W>)
        ensures
            (final(self)@, poll) == after_write(old(self)@, buf@, waker, same_task),
    {
        if self.send_state != TcpSocketState::Normal {
            return WritePoll::BrokenPipe;
        }
        if ring_is_full(&self.send_buffer) {
            let before = self.send_waker.take();
            self.send_waker = Some(waker);
            return WritePoll::Pending { wake: self.manner.pick_woken(before, same_task) };
        }
        let n: usize = ring_enqueue_slice(&mut self.send_buffer, buf);
        WritePoll::Ready { n, notify: n > 0 }
    }

    /// Shuts the write half down. Until that is done, `waker` is left to be woken. `same_task` is
    /// as for `poll_read`.
    pub fn poll_shutdown(&mut self, waker: W, same_task: bool) -> (poll: ShutdownPoll<W>)
        ensures
            (final(self)@, poll) == after_shutdown(old(self)@, waker, same_task),
    {
        if self.manner.is_shut_down(self.send_state) {
            return ShutdownPoll::Ready;
        }
        if self.send_state == TcpSocketState::Normal {
            self.send_state = TcpSocketState::Close;
        }
        let before = self.send_waker.take();
        self.send_waker = Some(waker);
        ShutdownPoll::Pending { wake: self.manner.pick_woken(before, same_task) }
    }

    /// Takes what the socket has received into the receive buffer, until one is empty or the
    /// other is full. Returns whether there was any.
    fn pump_in(&mut self, socket: &mut Socket<'static>) -> (moved: bool)
        ensures
            ({
                let n = inbound(old(self)@, socket_model(*old(socket)));
                &&& moved == (n > 0)
                &&& final(self)@ == (ControlModel {
                    recv: old(self)@.recv + socket_received(*old(socket)).take(n as int),
                    ..old(self)@
                })
                &&& socket_model(*final(socket)) == (SocketModel {
                    received: socket_received(*old(socket)).skip(n as int),
                    ..socket_model(*old(socket))
                })
                &&& socket_settings(*final(socket)) == socket_settings(*old(socket))
            }),
    {
        let ghost c = self@;
        let ghost s = socket_model(*socket);
        let ghost mut done: int = 0;
        let mut moved = false;
        proof {
            assert(c.recv =~= c.recv + s.received.take(0));
            assert(s.received =~= s.received.skip(0));
        }
        while can_recv(socket) && !ring_is_full(&self.recv_buffer)
            invariant
                0 <= done <= inbound(c, s),
                moved == (done > 0),
                self@ == (ControlModel { recv: c.recv + s.received.take(done), ..c }),
                socket_model(*socket) == (SocketModel { received: s.received.skip(done), ..s }),
                socket_settings(*socket) == socket_settings(*old(socket)),
            ensures
                done == inbound(c, s),
            decreases s.received.len() - done,
        {
            match recv_into(socket, &mut self.recv_buffer) {
                Ok(n) => {
                    proof {
                        let more = s.received.skip(done).take(n as int);
                        assert(s.received.take(done) + more =~= s.received.take(done + n));
                        assert(c.recv + s.received.take(done) + more =~= c.recv + s.received.take(
                            done + n,
                        ));
                        assert(s.received.skip(done).skip(n as int) =~= s.received.skip(done + n));
                        done = done + n;
                    }
                    moved = true;
                },
                Err(_) => {
                    abort(socket);
                    if self.recv_state == TcpSocketState::Normal {
                        self.recv_state = TcpSocketState::Closed;
                    }
                    moved = true;
                    break;
                },
            }
        }
        moved
    }

    /// Gives what waits in the send buffer to the socket, until one is empty or the other takes
    /// no more. Returns whether there was any.
    fn pump_out(&mut self, socket: &mut Socket<'static>) -> (moved: bool)
        ensures
            ({
                let n = outbound(old(self)@, socket_model(*old(socket)));
                &&& moved == (n > 0)
                &&& final(self)@ == (ControlModel {
                    send: old(self)@.send.skip(n as int),
                    ..old(self)@
                })
                &&& socket_model(*final(socket)) == (SocketModel {
                    unsent: socket_unsent(*old(socket)) + old(self)@.send.take(n as int),
                    ..socket_model(*old(socket))
                })
                &&& socket_settings(*final(socket)) == socket_settings(*old(socket))
            }),
    {
        let ghost c = self@;
        let ghost s = socket_model(*socket);
        let ghost mut done: int = 0;
        let mut moved = false;
        proof {
            assert(s.unsent =~= s.unsent + c.send.take(0));
            assert(c.send =~= c.send.skip(0));
        }
        while can_send(socket) && !ring_is_empty(&self.send_buffer)
            invariant
                0 <= done <= outbound(c, s),
                moved == (done > 0),
                self@ == (ControlModel { send: c.send.skip(done), ..c }),
                socket_model(*socket) == (SocketModel { unsent: s.unsent + c.send.take(done), ..s }),
                socket_settings(*socket) == socket_settings(*old(socket)),
            ensures
                done == outbound(c, s),
            decreases c.send.len() - done,
        {
            match send_from(socket, &mut self.send_buffer) {
                Ok(n) => {
                    proof {
                        let more = c.send.skip(done).take(n as int);
                        assert(c.send.take(done) + more =~= c.send.take(done + n));
                        assert(s.unsent + c.send.take(done) + more =~= s.unsent + c.send.take(
                            done + n,
                        ));
                        assert(c.send.skip(done).skip(n as int) =~= c.send.skip(done + n));
                        done = done + n;
                    }
                    moved = true;
                },
                Err(_) => {
                    abort(socket);
                    if self.send_state == TcpSocketState::Normal {
                        self.send_state = TcpSocketState::Closed;
                    }
                    moved = true;
                    break;
                },
            }
        }
        moved
    }

    /// Looks after the connection once the stack has been polled: closes the write half where
    /// that is due, moves bytes both ways, and says whom to wake.
    pub fn service(&mut self, socket: &mut Socket<'static>) -> (serviced: Serviced<W>)
        ensures
            ({
                let c = old(self)@;
                let s = socket_model(*old(socket));
                &&& final(self)@ == serviced_control(c, s)
                &&& socket_model(*final(socket)) == serviced_socket(c, s)
                &&& socket_settings(*final(socket)) == socket_settings(*old(socket))
                &&& serviced.remove == (s.state is Closed)
                &&& serviced.wake_sender == (if wakes_sender(c, s) {
                    c.send_waker
                } else {
                    None
                })
                &&& serviced.wake_receiver == (if wakes_receiver(c, s) {
                    c.recv_waker
                } else {
                    None
                })
            }),
    {
        if state(socket) == TcpState::Closed {
            self.send_state = TcpSocketState::Closed;
            self.recv_state = TcpSocketState::Closed;
            let wake_sender = self.send_waker.take();
            let wake_receiver = self.recv_waker.take();
            return Serviced { remove: true, wake_sender, wake_receiver };
        }
        if self.send_state == TcpSocketState::Close && send_queue(socket) == 0 && ring_is_empty(
            &self.send_buffer,
        ) {
            close(socket);
            self.send_state = TcpSocketState::Closing;
        }
        let mut wake_receiver = self.pump_in(socket);
        if self.recv_state == TcpSocketState::Normal && !may_recv(socket) {
            match state(socket) {
                TcpState::Listen
                | TcpState::SynReceived
                | TcpState::Established
                | TcpState::FinWait1
                | TcpState::FinWait2 => {},
                _ => {
                    self.recv_state = TcpSocketState::Closed;
                    wake_receiver = true;
                },
            }
        }
        let receiver = if wake_receiver {
            self.recv_waker.take()
        } else {
            None
        };
        let wake_sender = self.pump_out(socket);
        let sender = if wake_sender {
            self.send_waker.take()
        } else {
            None
        };
        Serviced { remove: false, wake_sender: sender, wake_receiver: receiver }
    }
}

/// Looking after a connection neither loses nor repeats a byte, and keeps them in order, in both
/// directions.
pub proof fn law_service_conserves_bytes<W>(c: ControlModel<W>, s: SocketModel)
    ensures
        serviced_control(c, s).recv + serviced_socket(c, s).received == c.recv + s.received,
        serviced_socket(c, s).unsent + serviced_control(c, s).send == s.unsent + c.send,
{
    let h = half_closed(c, s);
    let i = inbound(c, h) as int;
    let o = outbound(c, h) as int;
    assert(c.recv + s.received.take(i) + s.received.skip(i) =~= c.recv + s.received);
    assert(s.unsent + c.send.take(o) + c.send.skip(o) =~= s.unsent + c.send);
}

/// Looking after a connection keeps the buffers within their sizes.
pub proof fn law_service_stays_within_capacity<W>(c: ControlModel<W>, s: SocketModel)
    requires
        c.recv.len() <= c.recv_capacity,
        c.send.len() <= c.send_capacity,
        s.unsent.len() <= s.send_capacity,
    ensures
        ({
            let d = serviced_control(c, s);
            let t = serviced_socket(c, s);
            &&& d.recv_capacity == c.recv_capacity && d.send_capacity == c.send_capacity
            &&& t.send_capacity == s.send_capacity
            &&& d.recv.len() <= d.recv_capacity
            &&& d.send.len() <= d.send_capacity
            &&& t.unsent.len() <= t.send_capacity
        }),
{
}

/// Writing keeps the buffer within its size, and takes as much as there is room for; reading takes
/// from the front.
pub proof fn law_polls_move_bytes_in_order<W>(
    c: ControlModel<W>,
    data: Seq<u8>,
    buf: Seq<u8>,
    waker: W,
    same_task: bool,
)
    requires
        c.send.len() <= c.send_capacity,
        buf.len() <= usize::MAX,
    ensures
        ({
            let (w, _) = after_write(c, data, waker, same_task);
            let (r, poll, content) = after_read(c, buf, waker, same_task);
            &&& w.send.len() <= w.send_capacity
            &&& w.send.take(c.send.len() as int) == c.send
            &&& poll matches ReadPoll::Ready { n, notify: _ } ==> content.take(n as int) + r.recv
                == c.recv
            &&& content.len() == buf.len()
        }),
{
    let (w, _) = after_write(c, data, waker, same_task);
    let (r, poll, content) = after_read(c, buf, waker, same_task);
    assert(w.send.take(c.send.len() as int) =~= c.send);
    if c.recv.len() > 0 {
        let n = least(buf.len(), c.recv.len());
        assert(content.take(n as int) + r.recv =~= c.recv);
    } else if c.recv_state is Closed {
        assert(content.take(0) + r.recv =~= c.recv);
    }
}

/// Once a connection that is not over has been looked after, no byte more can pass until
/// something else happens to it.
pub proof fn law_service_moves_all_it_can<W>(c: ControlModel<W>, s: SocketModel)
    requires
        !(s.state is Closed),
    ensures
        inbound(serviced_control(c, s), serviced_socket(c, s)) == 0,
        outbound(serviced_control(c, s), serviced_socket(c, s)) == 0,
{
}

/// Neither half of a connection ever goes back to an earlier state, and a half that is over
/// stays over.
pub proof fn law_service_never_reopens<W>(c: ControlModel<W>, s: SocketModel)
    ensures
        serviced_control(c, s).send_state.rank() >= c.send_state.rank(),
        serviced_control(c, s).recv_state.rank() >= c.recv_state.rank(),
{
}

/// The write half is closed only once everything written has been sent and acknowledged, and
/// then it is.
pub proof fn law_close_waits_for_written_bytes<W>(c: ControlModel<W>, s: SocketModel)
    requires
        c.send_state is Close,
        !(s.state is Closed),
    ensures
        serviced_control(c, s).send_state is Closing <==> c.send.len() == 0 && s.unsent.len() == 0,
        !(serviced_control(c, s).send_state is Closing) ==> {
            &&& serviced_control(c, s).send_state is Close
            &&& serviced_socket(c, s).state == s.state
        },
{
}

/// A task that waits is woken whenever what it waits for may have come: bytes or the end of the
/// stream for a reader, room or the end of the connection for a writer.
pub proof fn law_service_wakes_whom_it_serves<W>(c: ControlModel<W>, s: SocketModel)
    ensures
        serviced_control(c, s).recv != c.recv ==> wakes_receiver(c, s),
        serviced_control(c, s).recv_state != c.recv_state ==> wakes_receiver(c, s),
        serviced_control(c, s).send != c.send ==> wakes_sender(c, s),
        serviced_control(c, s).send_state is Closed && !(c.send_state is Closed) ==> wakes_sender(
            c,
            s,
        ),
{
    let h = half_closed(c, s);
    if inbound(c, h) == 0 {
        assert(c.recv + h.received.take(0) =~= c.recv);
    }
    if outbound(c, h) == 0 {
        assert(c.send.skip(0) =~= c.send);
    }
}

/// How long the stack may sleep, in microseconds, given whether there is something to read and
/// when its next timer is due.
pub open spec fn sleep_time(recv_available: bool, poll_delay: Option<u64>) -> Option<u64> {
    match poll_delay {
        _ if recv_available => None,
        Some(0) => None,
        Some(delay) => Some(delay),
        None => Some(IDLE_WAIT_MICROS),
    }
}

/// The stack sleeps exactly where there is nothing to read and no timer is due: no longer than to
/// its next timer, and five milliseconds where it has none.
pub proof fn law_the_stack_sleeps_until_its_timer(recv_available: bool, poll_delay: Option<u64>)
    ensures
        sleep_time(recv_available, poll_delay) is None <==> recv_available || poll_delay == Some(
            0u64,
        ),
        sleep_time(recv_available, poll_delay) matches Some(wait) ==> match poll_delay {
            Some(delay) => wait == delay,
            None => wait == 5_000,
        },
{
}

/// How long the stack may sleep when it has nothing to read, in microseconds: until its next
/// timer, or five milliseconds where it has none. `None` means not at all.
pub fn idle_wait(recv_available: bool, poll_delay: Option<u64>) -> (wait: Option<u64>)
    ensures
        wait == (if recv_available {
            None
        } else {
            match poll_delay {
                None => Some(IDLE_WAIT_MICROS),
                Some(delay) => if delay == 0 {
                    None
                } else {
                    Some(delay)
                },
            }
        }),
        wait == sleep_time(recv_available, poll_delay),
{
    if recv_available {
        return None;
    }
    let delay: u64 = poll_delay.unwrap_or(IDLE_WAIT_MICROS);
    if delay != 0 {
        Some(delay)
    } else {
        None
    }
}

/// A write queues exactly what it reports, behind everything that was queued before: as much of
/// the front of the data as there is room for. One that reports nothing queues nothing. It waits
/// exactly where the queue is full, fails exactly where the write half was shut down, and touches
/// nothing else of the connection.
pub proof fn law_writes_queue_what_they_report<W>(
    c: ControlModel<W>,
    data: Seq<u8>,
    waker: W,
    same_task: bool,
)
    requires
        c.send.len() <= c.send_capacity,
        data.len() <= usize::MAX,
    ensures
        ({
            let (d, poll) = after_write(c, data, waker, same_task);
            &&& match poll {
                WritePoll::Ready { n, notify } => {
                    &&& n <= data.len()
                    &&& d.send == c.send + data.take(n as int)
                    &&& d.send.len() <= c.send_capacity
                    &&& n < data.len() ==> d.send.len() == c.send_capacity
                    &&& notify <==> n > 0
                    &&& d.send_waker == c.send_waker
                },
                WritePoll::Pending { wake } => {
                    &&& d.send == c.send
                    &&& d.send_waker == Some(waker)
                    &&& wake is Some ==> wake == c.send_waker
                },
                WritePoll::BrokenPipe => d == c,
            }
            &&& poll is BrokenPipe <==> c.send_state != TcpSocketState::Normal
            &&& poll is Pending <==> c.send_state == TcpSocketState::Normal && c.send.len()
                == c.send_capacity
            &&& d.send_state == c.send_state && d.send_capacity == c.send_capacity
            &&& d.recv == c.recv && d.recv_state == c.recv_state
            &&& d.recv_capacity == c.recv_capacity && d.recv_waker == c.recv_waker
            &&& d.manner == c.manner
        }),
{
}

/// Two writes in a row, each of which has room, queue what one write of both would.
pub proof fn law_writes_follow_each_other<W>(
    c: ControlModel<W>,
    a: Seq<u8>,
    b: Seq<u8>,
    waker: W,
    same_task: bool,
)
    requires
        c.send_state is Normal,
        a.len() + b.len() < c.send_capacity - c.send.len(),
        a.len() + b.len() <= usize::MAX,
    ensures
        ({
            let (one, first) = after_write(c, a, waker, same_task);
            let (two, second) = after_write(one, b, waker, same_task);
            let (both, _) = after_write(c, a + b, waker, same_task);
            &&& first matches WritePoll::Ready { n, notify: _ } && n == a.len()
            &&& second matches WritePoll::Ready { n, notify: _ } && n == b.len()
            &&& two.send == c.send + a + b
            &&& both.send == two.send
        }),
{
    assert(a.take(a.len() as int) =~= a);
    assert(b.take(b.len() as int) =~= b);
    assert((a + b).take((a + b).len() as int) =~= a + b);
    assert(c.send + (a + b) =~= c.send + a + b);
}

/// A read hands out the front of what was received and leaves the rest: as much as there is and
/// the buffer takes, and behind it the buffer stays as it was. It waits exactly where there is
/// nothing and more may come, says that the stream is over exactly where there is nothing and
/// nothing more comes, and touches nothing else of the connection.
pub proof fn law_reads_hand_out_the_front<W>(
    c: ControlModel<W>,
    buf: Seq<u8>,
    waker: W,
    same_task: bool,
)
    requires
        buf.len() <= usize::MAX,
    ensures
        ({
            let (d, poll, content) = after_read(c, buf, waker, same_task);
            &&& content.len() == buf.len()
            &&& match poll {
                ReadPoll::Ready { n, notify } => {
                    &&& n <= buf.len()
                    &&& content.take(n as int) + d.recv == c.recv
                    &&& content.skip(n as int) == buf.skip(n as int)
                    &&& n < buf.len() ==> d.recv.len() == 0
                    &&& notify <==> n > 0
                    &&& c.recv.len() == 0 ==> c.recv_state == TcpSocketState::Closed
                    &&& d.recv_waker == c.recv_waker
                },
                ReadPoll::Pending { wake } => {
                    &&& c.recv.len() == 0 && c.recv_state != TcpSocketState::Closed
                    &&& content == buf
                    &&& d.recv == c.recv
                    &&& d.recv_waker == Some(waker)
                    &&& wake is Some ==> wake == c.recv_waker
                },
            }
            &&& d.recv_state == c.recv_state && d.recv_capacity == c.recv_capacity
            &&& d.send == c.send && d.send_state == c.send_state
            &&& d.send_capacity == c.send_capacity && d.send_waker == c.send_waker
            &&& d.manner == c.manner
        }),
{
    let (d, poll, content) = after_read(c, buf, waker, same_task);
    if c.recv.len() > 0 {
        let n = least(buf.len(), c.recv.len());
        assert(content.take(n as int) + d.recv =~= c.recv);
        assert(content.skip(n as int) =~= buf.skip(n as int));
    } else {
        assert(content.take(0) + d.recv =~= c.recv);
    }
}

/// A write that was taken in full by a connection can be read from the other end of it in one
/// piece: what a write adds behind, a read of the same queue takes in front.
pub proof fn law_bytes_keep_their_order<W>(
    c: ControlModel<W>,
    d: ControlModel<W>,
    data: Seq<u8>,
    buf: Seq<u8>,
    waker: W,
    same_task: bool,
)
    requires
        c.send_state is Normal,
        c.send.len() == 0,
        0 < data.len() <= c.send_capacity,
        data.len() <= buf.len() <= usize::MAX,
        d.recv == after_write(c, data, waker, same_task).0.send,
    ensures
        after_read(d, buf, waker, same_task).2.take(data.len() as int) == data,
        after_read(d, buf, waker, same_task).0.recv.len() == 0,
{
    assert(c.send + data.take(data.len() as int) =~= data);
    assert(after_read(d, buf, waker, same_task).2.take(data.len() as int) =~= data);
}

/// A shutdown is done exactly where the write half is over, or, on a stack of its own thread,
/// where it was asked for before. Until then it has been asked for, the one who asks is left to be
/// woken, and everything written stays to be sent. After it was asked for no write is taken.
pub proof fn law_shutdowns_end_writing<W>(
    c: ControlModel<W>,
    waker: W,
    same_task: bool,
    data: Seq<u8>,
    other: W,
)
    ensures
        ({
            let (d, poll) = after_shutdown(c, waker, same_task);
            &&& poll is Ready <==> (c.manner is Shared && c.send_state == TcpSocketState::Closed) || (
            c.manner is Threaded && c.send_state == TcpSocketState::Close)
            &&& poll is Ready ==> d == c
            &&& poll matches ShutdownPoll::Pending { wake } ==> d.send_waker == Some(waker) && (
            wake is Some ==> wake == c.send_waker)
            &&& d.send_state != TcpSocketState::Normal
            &&& c.send_state != TcpSocketState::Normal ==> d.send_state == c.send_state
            &&& c.send_state == TcpSocketState::Normal ==> d.send_state == TcpSocketState::Close
            &&& d.send == c.send && d.send_capacity == c.send_capacity
            &&& d.recv == c.recv && d.recv_state == c.recv_state
            &&& d.recv_capacity == c.recv_capacity && d.recv_waker == c.recv_waker
            &&& d.manner == c.manner
            &&& after_write(d, data, other, same_task) == (d, WritePoll::<W>::BrokenPipe)
        }),
{
}

/// Giving a connection up asks for both halves to be closed, and keeps everything else: what was
/// written is still sent. A half that was further on stays there.
pub proof fn law_released_connections_still_send<W>(c: ControlModel<W>)
    ensures
        ({
            let d = released(c);
            &&& d.send_state == TcpSocketState::Close <==> c.send_state == TcpSocketState::Normal
                || c.send_state == TcpSocketState::Close
            &&& d.recv_state == TcpSocketState::Close <==> c.recv_state == TcpSocketState::Normal
                || c.recv_state == TcpSocketState::Close
            &&& c.send_state != TcpSocketState::Normal ==> d.send_state == c.send_state
            &&& c.recv_state != TcpSocketState::Normal ==> d.recv_state == c.recv_state
            &&& d.send == c.send && d.send_capacity == c.send_capacity
            &&& d.recv == c.recv && d.recv_capacity == c.recv_capacity
            &&& d.send_waker == c.send_waker && d.recv_waker == c.recv_waker
            &&& d.manner == c.manner
        }),
{
}

/// Whom a new wait wakes: on a shared stack the one who waited before, if that is another, and on
/// a stack of its own thread, if it is the same.
pub proof fn law_new_waits_wake_old_ones<W>(before: Option<W>)
    ensures
        Manner::Shared.woken(before, true) is None,
        Manner::Shared.woken(before, false) == before,
        Manner::Threaded.woken(before, true) == before,
        Manner::Threaded.woken(before, false) is None,
{
}

/// Looking after a connection whose socket is closed ends both its halves, wakes and forgets
/// whoever waits, and keeps what was received to be read.
pub proof fn law_closed_sockets_end_connections<W>(c: ControlModel<W>, s: SocketModel)
    requires
        s.state == TcpState::Closed,
    ensures
        ({
            let d = serviced_control(c, s);
            &&& d.send_state == TcpSocketState::Closed && d.recv_state == TcpSocketState::Closed
            &&& d.send_waker is None && d.recv_waker is None
            &&& wakes_sender(c, s) && wakes_receiver(c, s)
            &&& d.recv == c.recv && d.send == c.send
            &&& d.manner == c.manner
            &&& serviced_socket(c, s) == s
        }),
{
}

/// Looking after a connection leaves nothing that can be moved: afterwards the socket has nothing
/// received or the program's side has no room, and the program's side has nothing to send or the
/// socket takes nothing more. The states stay, but for a half that is closed: the write half where
/// that was asked for and nothing is left to send, and the read half where nothing is left to
/// receive and the peer can send nothing more.
pub proof fn law_service_goes_as_far_as_it_can<W>(c: ControlModel<W>, s: SocketModel)
    requires
        s.state != TcpState::Closed,
    ensures
        ({
            let d = serviced_control(c, s);
            let t = serviced_socket(c, s);
            let sendable = t.state == TcpState::Established || t.state == TcpState::CloseWait;
            let due = c.send_state == TcpSocketState::Close && c.send.len() == 0 && s.unsent.len()
                == 0;
            let silent = !(t.state == TcpState::Listen || t.state == TcpState::SynReceived
                || t.state == TcpState::Established || t.state == TcpState::FinWait1 || t.state
                == TcpState::FinWait2);
            &&& t.received.len() == 0 || d.recv.len() >= d.recv_capacity
            &&& d.send.len() == 0 || !sendable || t.unsent.len() >= t.send_capacity
            &&& !sendable ==> d.send == c.send && t.unsent == s.unsent
            &&& t.state == (if due {
                s.state.after_close()
            } else {
                s.state
            })
            &&& d.send_state == (if due {
                TcpSocketState::Closing
            } else {
                c.send_state
            })
            &&& c.recv_state != TcpSocketState::Normal ==> d.recv_state == c.recv_state
            &&& c.recv_state == TcpSocketState::Normal ==> (d.recv_state == TcpSocketState::Closed
                <==> t.received.len() == 0 && silent)
            &&& c.recv_state == TcpSocketState::Normal ==> d.recv_state == TcpSocketState::Closed
                || d.recv_state == TcpSocketState::Normal
            &&& d.manner == c.manner
        }),
{
    let h = half_closed(c, s);
    if inbound(c, h) == s.received.len() {
        assert(h.received.skip(inbound(c, h) as int) =~= Seq::<u8>::empty());
    }
    if outbound(c, h) == 0 {
        assert(c.send.skip(0) =~= c.send);
        assert(h.unsent + c.send.take(0) =~= h.unsent);
    }
}

/// Looking after a connection wakes whoever waits for something exactly where it came: a reader
/// for bytes or the end of the stream, a writer for room. Whoever is woken is forgotten, and
/// everyone else waits on.
pub proof fn law_service_wakes_nobody_else<W>(c: ControlModel<W>, s: SocketModel)
    requires
        s.state != TcpState::Closed,
    ensures
        ({
            let d = serviced_control(c, s);
            &&& wakes_receiver(c, s) <==> d.recv.len() > c.recv.len() || d.recv_state
                != c.recv_state
            &&& wakes_sender(c, s) <==> d.send.len() < c.send.len()
            &&& d.recv_waker == (if wakes_receiver(c, s) {
                None
            } else {
                c.recv_waker
            })
            &&& d.send_waker == (if wakes_sender(c, s) {
                None
            } else {
                c.send_waker
            })
        }),
{
}

} // verus!
