//! All the connections of a stack: those that have a socket in it, and those whose program has
//! not let go of them yet.

use crate::stack::socket::{
    socket_model, socket_settings, socket_state, SocketModel, TcpState,
};
use crate::stack::tcp::{
    after_read, after_shutdown, after_write, law_closed_sockets_end_connections,
    law_service_conserves_bytes, law_service_goes_as_far_as_it_can, released, serviced_control,
    serviced_socket, wakes_receiver, wakes_sender, ControlModel, ReadPoll, ShutdownPoll,
    TcpSocketControl, TcpSocketState, WritePoll,
};
use smoltcp::iface::{SocketHandle, SocketSet};
use smoltcp::socket::tcp::Socket;
use std::collections::HashMap;
use vstd::prelude::*;

verus! {

#[verifier::external_type_specification]
#[verifier::external_body]
pub struct ExSocketHandle(smoltcp::iface::SocketHandle);

#[verifier::external_type_specification]
#[verifier::external_body]
pub struct ExSocketSet<'a>(smoltcp::iface::SocketSet<'a>);

/// The sockets of a set, by their handles.
pub uninterp spec fn set_sockets(set: SocketSet<'static>) -> Map<SocketHandle, Socket<'static>>;

/// Whether a set grows as sockets are added, rather than having room for a fixed number.
pub uninterp spec fn set_grows(set: SocketSet<'static>) -> bool;

/// `smoltcp::iface::SocketSet::new`, over a vector: no sockets, and room for any number.
#[verifier::external_body]
fn set_new() -> (made: SocketSet<'static>)
    ensures
        set_grows(made),
        set_sockets(made).dom() == Set::<SocketHandle>::empty(),
{
    SocketSet::new(Vec::new())
}

/// `smoltcp::iface::SocketSet::add`: one socket more, under a handle that no other has. It panics
/// where there is room for a fixed number and the set is full.
#[verifier::external_body]
fn set_add(set: &mut SocketSet<'static>, socket: Socket<'static>) -> (handle: SocketHandle)
    requires
        set_grows(*old(set)),
    ensures
        set_grows(*final(set)),
        !set_sockets(*old(set)).dom().contains(handle),
        set_sockets(*final(set)) == set_sockets(*old(set)).insert(handle, socket),
{
    set.add(socket)
}

/// `smoltcp::iface::SocketSet::get_mut`: the socket of a handle. It panics where there is none.
#[verifier::external_body]
fn set_get_mut<'a>(
    set: &'a mut SocketSet<'static>,
    handle: SocketHandle,
) -> (socket: &'a mut Socket<'static>)
    requires
        set_sockets(*old(set)).dom().contains(handle),
    ensures
        set_grows(*final(set)) == set_grows(*old(set)),
        *socket == set_sockets(*old(set))[handle],
        set_sockets(*final(set)) == set_sockets(*old(set)).insert(handle, *final(socket)),
{
    set.get_mut::<Socket<'static>>(handle)
}

/// `smoltcp::iface::SocketSet::remove`: takes the socket of a handle away. It panics where there
/// is none.
#[verifier::external_body]
fn set_remove(set: &mut SocketSet<'static>, handle: SocketHandle)
    requires
        set_sockets(*old(set)).dom().contains(handle),
    ensures
        set_grows(*final(set)) == set_grows(*old(set)),
        set_sockets(*final(set)) == set_sockets(*old(set)).remove(handle),
{
    let _ = set.remove(handle);
}

/// A connection as a value.
pub struct ConnectionModel<W> {
    pub control: ControlModel<W>,
    /// Its socket, as long as it is in the stack.
    pub socket: Option<SocketModel>,
    /// Whether the program still holds it.
    pub held: bool,
}

/// A connection after it was looked after.
pub open spec fn serviced<W>(c: ConnectionModel<W>) -> ConnectionModel<W> {
    match c.socket {
        None => c,
        Some(s) => ConnectionModel {
            control: serviced_control(c.control, s),
            socket: if s.state is Closed {
                None
            } else {
                Some(serviced_socket(c.control, s))
            },
            held: c.held,
        },
    }
}

/// Whether nothing is left of a connection: it is neither in the stack nor held.
pub open spec fn gone<W>(c: ConnectionModel<W>) -> bool {
    c.socket is None && !c.held
}

/// The connections after all of them were looked after.
pub open spec fn all_serviced<W>(connections: Map<u64, ConnectionModel<W>>) -> Map<
    u64,
    ConnectionModel<W>,
> {
    Map::new(
        |id: u64| connections.dom().contains(id) && !gone(serviced(connections[id])),
        |id: u64| serviced(connections[id]),
    )
}

/// The handles of the connections after all of them were looked after: those whose sockets were
/// closed have none any more.
pub open spec fn kept_handles<W>(
    handles: Map<u64, SocketHandle>,
    connections: Map<u64, ConnectionModel<W>>,
) -> Map<u64, SocketHandle> {
    Map::new(
        |id: u64| handles.dom().contains(id) && !over(connections[id]),
        |id: u64| handles[id],
    )
}

/// Whether the socket of a connection is closed.
pub open spec fn over<W>(c: ConnectionModel<W>) -> bool {
    c.socket matches Some(s) && s.state is Closed
}

/// The connections after the program let go of one.
pub open spec fn let_go<W>(connections: Map<u64, ConnectionModel<W>>, id: u64) -> Map<
    u64,
    ConnectionModel<W>,
> {
    if !connections.dom().contains(id) {
        connections
    } else if connections[id].socket is None {
        connections.remove(id)
    } else {
        let c = connections[id];
        connections.insert(
            id,
            ConnectionModel { control: released(c.control), held: false, ..c },
        )
    }
}

/// A connection that the program lets go of is forgotten exactly where it is not in the stack any
/// more; else it stays in the stack, with everything that was written still to be sent, and is held
/// by nobody. No other connection changes.
pub proof fn law_letting_go_keeps_what_is_in_the_stack<W>(
    connections: Map<u64, ConnectionModel<W>>,
    id: u64,
    other: u64,
)
    requires
        other != id,
    ensures
        ({
            let after = let_go(connections, id);
            let c = connections[id];
            &&& after.dom().contains(id) <==> connections.dom().contains(id) && c.socket is Some
            &&& after.dom().contains(id) ==> {
                &&& !after[id].held
                &&& after[id].socket == c.socket
                &&& after[id].control.send == c.control.send
                &&& after[id].control.send_state != TcpSocketState::Normal
                &&& after[id].control.recv_state != TcpSocketState::Normal
            }
            &&& after.dom().contains(other) == connections.dom().contains(other)
            &&& connections.dom().contains(other) ==> after[other] == connections[other]
        }),
{
}

/// The tasks that looking after a connection wakes, in order.
pub open spec fn woken<W>(c: ConnectionModel<W>) -> Seq<W> {
    match c.socket {
        None => Seq::empty(),
        Some(s) => {
            let sender = match c.control.send_waker {
                Some(w) if wakes_sender(c.control, s) => seq![w],
                _ => Seq::empty(),
            };
            let receiver = match c.control.recv_waker {
                Some(w) if wakes_receiver(c.control, s) => seq![w],
                _ => Seq::empty(),
            };
            if s.state is Closed {
                sender + receiver
            } else {
                receiver + sender
            }
        },
    }
}

/// The tasks that looking after some connections, one after the other, wakes.
pub open spec fn all_woken<W>(connections: Map<u64, ConnectionModel<W>>, ids: Seq<u64>) -> Seq<W>
    decreases ids.len(),
{
    if ids.len() == 0 {
        Seq::empty()
    } else {
        all_woken(connections, ids.drop_last()) + woken(connections[ids.last()])
    }
}

/// Whether `id` stands in `ids` at the place `from` or behind it.
spec fn comes_from(ids: Seq<&u64>, from: int, id: u64) -> bool {
    exists|j: int| from <= j < ids.len() && *#[trigger] ids[j] == id
}

proof fn lemma_push_contains(ids: Seq<u64>, id: u64)
    ensures
        forall|x: u64| #[trigger] ids.push(id).contains(x) <==> ids.contains(x) || x == id,
{
    let more = ids.push(id);
    assert forall|x: u64| #[trigger] more.contains(x) <==> ids.contains(x) || x == id by {
        if ids.contains(x) {
            let k = choose|k: int| 0 <= k < ids.len() && ids[k] == x;
            assert(more[k] == x);
        }
        if x == id {
            assert(more[ids.len() as int] == x);
        }
    }
}

/// A connection.
#[verifier::reject_recursive_types(W)]
struct Connection<W> {
    handle: Option<SocketHandle>,
    control: TcpSocketControl<W>,
    held: bool,
}

spec fn connection_model<W>(
    c: Connection<W>,
    sockets: Map<SocketHandle, Socket<'static>>,
) -> ConnectionModel<W> {
    ConnectionModel {
        control: c.control@,
        socket: match c.handle {
            Some(handle) => Some(socket_model(sockets[handle])),
            None => None,
        },
        held: c.held,
    }
}

/// Whether a handle is that of some connection.
spec fn owned<W>(connections: Map<u64, Connection<W>>, handle: SocketHandle) -> bool {
    exists|id: u64| #[trigger]
        connections.dom().contains(id) && connections[id].handle == Some(handle)
}

/// Sockets stay owned where their connections keep their handles.
proof fn lemma_stay_owned<W>(
    before: Map<u64, Connection<W>>,
    after: Map<u64, Connection<W>>,
    sockets: Map<SocketHandle, Socket<'static>>,
)
    requires
        forall|h: SocketHandle| #[trigger] sockets.dom().contains(h) ==> owned(before, h),
        forall|id: u64| #[trigger]
            before.dom().contains(id) && (before[id].handle matches Some(h)
                && sockets.dom().contains(h)) ==> after.dom().contains(id) && after[id].handle
                == before[id].handle,
    ensures
        forall|h: SocketHandle| #[trigger] sockets.dom().contains(h) ==> owned(after, h),
{
    assert forall|h: SocketHandle| #[trigger] sockets.dom().contains(h) implies owned(after, h) by {
        let id = choose|id: u64| #[trigger]
            before.dom().contains(id) && before[id].handle == Some(h);
        assert(after.dom().contains(id));
    }
}

/// Each connection that has a handle has a socket, and no other has the same; there are no other
/// sockets; nothing is kept of a connection that is gone; and the numbers are below the next one.
spec fn in_order<W>(
    connections: Map<u64, Connection<W>>,
    sockets: Map<SocketHandle, Socket<'static>>,
    next_id: u64,
) -> bool {
    &&& forall|id: u64| #[trigger]
        connections.dom().contains(id) ==> {
            &&& id < next_id
            &&& connections[id].handle is None ==> connections[id].held
            &&& connections[id].handle matches Some(h) ==> sockets.dom().contains(h)
        }
    &&& forall|a: u64, b: u64|
        #![trigger connections.dom().contains(a), connections.dom().contains(b)]
        connections.dom().contains(a) && connections.dom().contains(b)
            && connections[a].handle is Some && connections[a].handle == connections[b].handle
            ==> a == b
    &&& forall|h: SocketHandle| #[trigger] sockets.dom().contains(h) ==> owned(connections, h)
}

/// The connections of a stack.
#[verifier::reject_recursive_types(W)]
pub struct TcpSocketManager<W> {
    set: SocketSet<'static>,
    connections: HashMap<u64, Connection<W>>,
    next_id: u64,
}

impl<W> View for TcpSocketManager<W> {
    type V = Map<u64, ConnectionModel<W>>;

    closed spec fn view(&self) -> Map<u64, ConnectionModel<W>> {
        let sockets = set_sockets(self.set);
        self.connections@.map_values(|c: Connection<W>| connection_model(c, sockets))
    }
}

impl<W> TcpSocketManager<W> {
    /// The number that the next connection gets.
    pub closed spec fn next_id(&self) -> u64 {
        self.next_id
    }

    /// The sockets that are in the stack.
    pub closed spec fn sockets(&self) -> Map<SocketHandle, Socket<'static>> {
        set_sockets(self.set)
    }

    /// The handles of the connections that are in the stack.
    pub closed spec fn handles(&self) -> Map<u64, SocketHandle> {
        Map::new(
            |id: u64| self.connections@.dom().contains(id) && self.connections@[id].handle is Some,
            |id: u64| self.connections@[id].handle.unwrap(),
        )
    }

    /// Each connection in the stack has a socket of its own, and there are no other sockets;
    /// nothing is kept of a connection that is gone; and no number is given twice.
    pub closed spec fn wf(&self) -> bool {
        &&& in_order(self.connections@, set_sockets(self.set), self.next_id)
        &&& set_grows(self.set)
    }

    /// No connections.
    pub fn new() -> (manager: Self)
        ensures
            manager.wf(),
            manager@ == Map::<u64, ConnectionModel<W>>::empty(),
            manager.next_id() == 0,
            manager.handles() == Map::<u64, SocketHandle>::empty(),
            manager.sockets().dom() == Set::<SocketHandle>::empty(),
    {
        let manager = TcpSocketManager { set: set_new(), connections: HashMap::new(), next_id: 0 };
        proof {
            assert(manager@ =~= Map::<u64, ConnectionModel<W>>::empty());
            assert(manager.handles() =~= Map::<u64, SocketHandle>::empty());
        }
        manager
    }

    /// The sockets, for the stack to work on. It neither adds nor removes any.
    pub fn socket_set(&mut self) -> (lent: &mut SocketSet<'static>)
        requires
            old(self).wf(),
        ensures
            set_sockets(*lent) == old(self).sockets(),
            final(self).sockets() == set_sockets(*final(lent)),
            final(self).next_id() == old(self).next_id(),
            set_grows(*lent),
            set_sockets(*final(lent)).dom() == set_sockets(*lent).dom() && set_grows(*final(lent))
                ==> final(self).wf(),
            final(self).handles() == old(self).handles(),
            forall|id: u64| #[trigger]
                old(self).handles().dom().contains(id) ==> final(self)@[id].socket == Some(
                    socket_model(set_sockets(*final(lent))[old(self).handles()[id]]),
                ),
            final(self)@.dom() == old(self)@.dom(),
            forall|id: u64| #[trigger]
                old(self)@.dom().contains(id) ==> {
                    &&& final(self)@[id].control == old(self)@[id].control
                    &&& final(self)@[id].held == old(self)@[id].held
                    &&& final(self)@[id].socket is Some <==> old(self)@[id].socket is Some
                },
    {
        &mut self.set
    }

    /// Whether there is a number for one more connection.
    pub fn can_open(&self) -> (can: bool)
        ensures
            can == (self.next_id() < u64::MAX),
    {
        self.next_id < u64::MAX
    }

    /// Takes a connection into the stack, and numbers it.
    pub fn open(&mut self, control: TcpSocketControl<W>, socket: Socket<'static>) -> (id: u64)
        requires
            old(self).wf(),
            old(self).next_id() < u64::MAX,
        ensures
            final(self).wf(),
            id == old(self).next_id(),
            final(self).next_id() == id + 1,
            !old(self)@.dom().contains(id),
            final(self)@ == old(self)@.insert(
                id,
                ConnectionModel {
                    control: control@,
                    socket: Some(socket_model(socket)),
                    held: true,
                },
            ),
            !old(self).sockets().dom().contains(final(self).handles()[id]),
            final(self).handles() == old(self).handles().insert(id, final(self).handles()[id]),
            final(self).sockets() == old(self).sockets().insert(
                final(self).handles()[id],
                socket,
            ),
    {
        let ghost before = self@;
        let ghost model = ConnectionModel {
            control: control@,
            socket: Some(socket_model(socket)),
            held: true,
        };
        let id: u64 = self.next_id;
        self.next_id = id + 1;
        let handle = set_add(&mut self.set, socket);
        let _ = self.connections.insert(
            id,
            Connection { handle: Some(handle), control, held: true },
        );
        proof {
            assert(self@ =~= before.insert(id, model));
            assert(self.handles() =~= old(self).handles().insert(id, handle));
            lemma_stay_owned(old(self).connections@, self.connections@, old(self).sockets());
            assert(self.connections@.dom().contains(id));
            assert(owned(self.connections@, handle));
        }
        id
    }

    /// The task that waits for something to read from a connection.
    pub fn recv_waker(&self, id: u64) -> (waker: Option<&W>)
        ensures
            match waker {
                Some(w) => self@.dom().contains(id) && self@[id].control.recv_waker == Some(*w),
                None => self@.dom().contains(id) ==> self@[id].control.recv_waker is None,
            },
    {
        match self.connections.get(&id) {
            Some(c) => c.control.recv_waker().as_ref(),
            None => None,
        }
    }

    /// The task that waits for room to write to a connection, or for its write half to close.
    pub fn send_waker(&self, id: u64) -> (waker: Option<&W>)
        ensures
            match waker {
                Some(w) => self@.dom().contains(id) && self@[id].control.send_waker == Some(*w),
                None => self@.dom().contains(id) ==> self@[id].control.send_waker is None,
            },
    {
        match self.connections.get(&id) {
            Some(c) => c.control.send_waker().as_ref(),
            None => None,
        }
    }

    /// Reads from a connection. There is nothing to say where there is none of that number.
    pub fn poll_read(&mut self, id: u64, buf: &mut [u8], waker: W, same_task: bool) -> (poll:
        Option<ReadPoll<W>>)
        requires
            old(self).wf(),
        ensures
            final(self).wf(),
            final(self).next_id() == old(self).next_id(),
            final(self).sockets() == old(self).sockets(),
            final(self).handles() == old(self).handles(),
            if old(self)@.dom().contains(id) {
                let c = old(self)@[id];
                let (control, said, content) = after_read(c.control, old(buf)@, waker, same_task);
                &&& poll == Some(said)
                &&& final(buf)@ == content
                &&& final(self)@ == old(self)@.insert(id, ConnectionModel { control, ..c })
            } else {
                &&& poll is None
                &&& final(buf)@ == old(buf)@
                &&& final(self)@ == old(self)@
            },
    {
        let ghost before = self@;
        match self.connections.remove(&id) {
            Some(mut c) => {
                let poll = c.control.poll_read(buf, waker, same_task);
                let ghost after = ConnectionModel { control: c.control@, ..before[id] };
                let _ = self.connections.insert(id, c);
                proof {
                    assert(self@ =~= before.insert(id, after));
                    assert(self.handles() =~= old(self).handles());
                    lemma_stay_owned(old(self).connections@, self.connections@, self.sockets());
                }
                Some(poll)
            },
            None => {
                proof {
                    assert(self.connections@ =~= old(self).connections@);
                }
                None
            },
        }
    }

    /// Writes to a connection. There is nothing to say where there is none of that number.
    pub fn poll_write(&mut self, id: u64, buf: &[u8], waker: W, same_task: bool) -> (poll: Option<
        WritePoll<W>,
    >)
        requires
            old(self).wf(),
        ensures
            final(self).wf(),
            final(self).next_id() == old(self).next_id(),
            final(self).sockets() == old(self).sockets(),
            final(self).handles() == old(self).handles(),
            if old(self)@.dom().contains(id) {
                let c = old(self)@[id];
                let (control, said) = after_write(c.control, buf@, waker, same_task);
                &&& poll == Some(said)
                &&& final(self)@ == old(self)@.insert(id, ConnectionModel { control, ..c })
            } else {
                poll is None && final(self)@ == old(self)@
            },
    {
        let ghost before = self@;
        match self.connections.remove(&id) {
            Some(mut c) => {
                let poll = c.control.poll_write(buf, waker, same_task);
                let ghost after = ConnectionModel { control: c.control@, ..before[id] };
                let _ = self.connections.insert(id, c);
                proof {
                    assert(self@ =~= before.insert(id, after));
                    assert(self.handles() =~= old(self).handles());
                    lemma_stay_owned(old(self).connections@, self.connections@, self.sockets());
                }
                Some(poll)
            },
            None => {
                proof {
                    assert(self.connections@ =~= old(self).connections@);
                }
                None
            },
        }
    }

    /// Shuts the write half of a connection down. There is nothing to say where there is none of
    /// that number.
    pub fn poll_shutdown(&mut self, id: u64, waker: W, same_task: bool) -> (poll: Option<
        ShutdownPoll<W>,
    >)
        requires
            old(self).wf(),
        ensures
            final(self).wf(),
            final(self).next_id() == old(self).next_id(),
            final(self).sockets() == old(self).sockets(),
            final(self).handles() == old(self).handles(),
            if old(self)@.dom().contains(id) {
                let c = old(self)@[id];
                let (control, said) = after_shutdown(c.control, waker, same_task);
                &&& poll == Some(said)
                &&& final(self)@ == old(self)@.insert(id, ConnectionModel { control, ..c })
            } else {
                poll is None && final(self)@ == old(self)@
            },
    {
        let ghost before = self@;
        match self.connections.remove(&id) {
            Some(mut c) => {
                let poll = c.control.poll_shutdown(waker, same_task);
                let ghost after = ConnectionModel { control: c.control@, ..before[id] };
                let _ = self.connections.insert(id, c);
                proof {
                    assert(self@ =~= before.insert(id, after));
                    assert(self.handles() =~= old(self).handles());
                    lemma_stay_owned(old(self).connections@, self.connections@, self.sockets());
                }
                Some(poll)
            },
            None => {
                proof {
                    assert(self.connections@ =~= old(self).connections@);
                }
                None
            },
        }
    }

    /// The program lets go of a connection. It is gone at once where it is not in the stack any
    /// more.
    pub fn release(&mut self, id: u64)
        requires
            old(self).wf(),
        ensures
            final(self).wf(),
            final(self).next_id() == old(self).next_id(),
            final(self).sockets() == old(self).sockets(),
            final(self).handles() == old(self).handles(),
            final(self)@ == (if old(self)@.dom().contains(id) {
                let c = old(self)@[id];
                let after = ConnectionModel {
                    control: released(c.control),
                    held: false,
                    ..c
                };
                if gone(after) {
                    old(self)@.remove(id)
                } else {
                    old(self)@.insert(id, after)
                }
            } else {
                old(self)@
            }),
            final(self)@ == let_go(old(self)@, id),
    {
        let ghost before = self@;
        match self.connections.remove(&id) {
            Some(mut c) => {
                c.control.release();
                c.held = false;
                let ghost after = ConnectionModel {
                    control: c.control@,
                    held: false,
                    ..before[id]
                };
                if c.handle.is_some() {
                    let _ = self.connections.insert(id, c);
                    proof {
                        assert(self@ =~= before.insert(id, after));
                        assert(self.handles() =~= old(self).handles());
                        lemma_stay_owned(old(self).connections@, self.connections@, self.sockets());
                    }
                } else {
                    proof {
                        assert(self@ =~= before.remove(id));
                        assert(self.handles() =~= old(self).handles());
                        lemma_stay_owned(old(self).connections@, self.connections@, self.sockets());
                    }
                }
            },
            None => {
                proof {
                    assert(self.connections@ =~= old(self).connections@);
                }
            },
        }
    }

    /// Looks after one connection, and adds the tasks to wake.
    fn service(&mut self, id: u64, wakers: &mut Vec<W>)
        requires
            old(self).wf(),
            old(self)@.dom().contains(id),
        ensures
            final(self).wf(),
            final(self).next_id == old(self).next_id,
            final(wakers)@ == old(wakers)@ + woken(old(self)@[id]),
            final(self)@ == (if gone(serviced(old(self)@[id])) {
                old(self)@.remove(id)
            } else {
                old(self)@.insert(id, serviced(old(self)@[id]))
            }),
            final(self).handles() == (if over(old(self)@[id]) {
                old(self).handles().remove(id)
            } else {
                old(self).handles()
            }),
            forall|h: SocketHandle| #[trigger]
                final(self).sockets().dom().contains(h) ==> old(self).sockets().dom().contains(h)
                    && socket_settings(final(self).sockets()[h]) == socket_settings(
                    old(self).sockets()[h],
                ),
    {
        let ghost before = self@;
        let ghost model = before[id];
        let ghost told = wakers@;
        if let Some(mut c) = self.connections.remove(&id) {
            let handle = match c.handle {
                Some(handle) => handle,
                None => {
                    let _ = self.connections.insert(id, c);
                    proof {
                        assert(self@ =~= before.insert(id, serviced(model)));
                        assert(wakers@ =~= told + woken(model));
                        assert(self.handles() =~= old(self).handles());
                        lemma_stay_owned(old(self).connections@, self.connections@, self.sockets());
                    }
                    return;
                },
            };
            let socket = set_get_mut(&mut self.set, handle);
            let done = c.control.service(socket);
            if done.remove {
                if let Some(w) = done.wake_sender {
                    wakers.push(w);
                }
                if let Some(w) = done.wake_receiver {
                    wakers.push(w);
                }
                set_remove(&mut self.set, handle);
                c.handle = None;
                if c.held {
                    let _ = self.connections.insert(id, c);
                    proof {
                        assert(self@ =~= before.insert(id, serviced(model)));
                    }
                } else {
                    proof {
                        assert(self@ =~= before.remove(id));
                    }
                }
                proof {
                    assert(self.handles() =~= old(self).handles().remove(id));
                    lemma_stay_owned(old(self).connections@, self.connections@, self.sockets());
                }
            } else {
                if let Some(w) = done.wake_receiver {
                    wakers.push(w);
                }
                if let Some(w) = done.wake_sender {
                    wakers.push(w);
                }
                let _ = self.connections.insert(id, c);
                proof {
                    assert(self@ =~= before.insert(id, serviced(model)));
                    assert(self.handles() =~= old(self).handles());
                    lemma_stay_owned(old(self).connections@, self.connections@, self.sockets());
                }
            }
            proof {
                assert(wakers@ =~= told + woken(model));
            }
        }
    }

    /// Looks after all connections, once the stack has worked on their sockets: the tasks that
    /// have to be woken.
    pub fn service_all(&mut self) -> (wakers: Vec<W>)
        requires
            old(self).wf(),
        ensures
            final(self).wf(),
            final(self).next_id() == old(self).next_id(),
            final(self)@ == all_serviced(old(self)@),
            exists|ids: Seq<u64>|
                ids.no_duplicates() && ids.to_set() == old(self)@.dom() && wakers@
                    == #[trigger] all_woken(old(self)@, ids),
            final(self).handles() == kept_handles(old(self).handles(), old(self)@),
            forall|h: SocketHandle| #[trigger]
                final(self).sockets().dom().contains(h) <==> old(self).sockets().dom().contains(h)
                    && !(socket_state(old(self).sockets()[h]) is Closed),
            forall|h: SocketHandle| #[trigger]
                final(self).sockets().dom().contains(h) ==> socket_settings(
                    final(self).sockets()[h],
                ) == socket_settings(old(self).sockets()[h]),
    {
        let ghost before = self@;
        let mut ids: Vec<u64> = Vec::new();
        for id in keys: self.connections.keys()
            invariant
                self.wf(),
                self@ == before,
                self.handles() == old(self).handles(),
                self.sockets() == old(self).sockets(),
                self.next_id == old(self).next_id,
                keys.seq().unref().to_set() == before.dom(),
                keys.seq().no_duplicates(),
                ids@.len() == keys.index(),
                forall|j: int| 0 <= j < ids@.len() ==> #[trigger] ids@[j] == *keys.seq()[j],
                forall|id: u64| #[trigger]
                    before.dom().contains(id) ==> ids@.contains(id) || comes_from(
                        keys.seq(),
                        keys.index() as int,
                        id,
                    ),
                forall|j: int| 0 <= j < ids@.len() ==> before.dom().contains(#[trigger] ids@[j]),
        {
            let ghost listed = ids@;
            ids.push(*id);
            proof {
                lemma_push_contains(listed, *id);
            }
        }
        let mut wakers: Vec<W> = Vec::new();
        let mut i: usize = 0;
        proof {
            assert(ids@.no_duplicates());
            assert(ids@.to_set() =~= before.dom());
            assert(ids@.take(0) =~= Seq::empty());
        }
        while i < ids.len()
            invariant
                i <= ids@.len(),
                ids@.no_duplicates(),
                ids@.to_set() == before.dom(),
                self.wf(),
                self.next_id == old(self).next_id,
                wakers@ == all_woken(before, ids@.take(i as int)),
                forall|id: u64| #[trigger]
                    self@.dom().contains(id) <==> before.dom().contains(id) && !(ids@.take(
                        i as int,
                    ).contains(id) && gone(serviced(before[id]))),
                forall|id: u64| #[trigger]
                    self@.dom().contains(id) ==> self@[id] == (if ids@.take(i as int).contains(
                        id,
                    ) {
                        serviced(before[id])
                    } else {
                        before[id]
                    }),
                old(self).wf(),
                old(self)@ == before,
                forall|id: u64| #[trigger]
                    self.handles().dom().contains(id) <==> old(self).handles().dom().contains(id)
                        && !(ids@.take(i as int).contains(id) && over(before[id])),
                forall|id: u64| #[trigger]
                    self.handles().dom().contains(id) ==> self.handles()[id] == old(
                        self,
                    ).handles()[id],
                forall|h: SocketHandle| #[trigger]
                    self.sockets().dom().contains(h) ==> old(self).sockets().dom().contains(h)
                        && socket_settings(self.sockets()[h]) == socket_settings(
                        old(self).sockets()[h],
                    ),
            decreases ids@.len() - i,
        {
            let id: u64 = ids[i];
            let ghost done = ids@.take(i as int);
            let ghost more = ids@.take(i + 1);
            let ghost mid = self@;
            let ghost mid_handles = self.handles();
            proof {
                assert(more =~= done.push(id));
                assert(more.drop_last() =~= done);
                lemma_push_contains(done, id);
                if done.contains(id) {
                    let k = choose|k: int| 0 <= k < done.len() && done[k] == id;
                    assert(ids@[k] == ids@[i as int]);
                }
                assert(ids@.to_set().contains(id));
            }
            self.service(id, &mut wakers);
            proof {
                assert(mid.dom().contains(id));
                assert(mid[id] == before[id]);
                assert(all_woken(before, more) == all_woken(before, done) + woken(before[id]));
                assert forall|other: u64| #[trigger]
                    self@.dom().contains(other) <==> before.dom().contains(other) && !(
                    more.contains(other) && gone(serviced(before[other]))) by {
                    assert(mid.dom().contains(other) <==> before.dom().contains(other) && !(
                    done.contains(other) && gone(serviced(before[other]))));
                }
                assert forall|other: u64| #[trigger]
                    self.handles().dom().contains(other) <==> old(self).handles().dom().contains(
                        other,
                    ) && !(more.contains(other) && over(before[other])) by {
                    assert(mid_handles.dom().contains(other) <==> old(
                        self,
                    ).handles().dom().contains(other) && !(done.contains(other) && over(
                        before[other],
                    )));
                }
            }
            i = i + 1;
        }
        proof {
            assert(ids@.take(i as int) =~= ids@);
            assert(self@ =~= all_serviced(before));
            assert(ids@.to_set() == before.dom());
            assert forall|id: u64| #[trigger] old(self).handles().dom().contains(id) implies
                ids@.contains(id) by {
                assert(before.dom().contains(id));
                assert(ids@.to_set().contains(id));
            }
            assert(self.handles() =~= kept_handles(old(self).handles(), before));
            law_sockets_belong_to_connections(*old(self));
            law_sockets_belong_to_connections(*self);
            assert forall|h: SocketHandle| #[trigger]
                self.sockets().dom().contains(h) <==> old(self).sockets().dom().contains(h) && !(
                socket_state(old(self).sockets()[h]) is Closed) by {
                if old(self).sockets().dom().contains(h) {
                    let id = choose|id: u64| #[trigger]
                        old(self).handles().dom().contains(id) && old(self).handles()[id] == h;
                    assert(old(self).handles().dom().contains(id));
                    assert(over(before[id]) == (socket_state(old(self).sockets()[h]) is Closed));
                    if self.sockets().dom().contains(h) {
                        let now = choose|now: u64| #[trigger]
                            self.handles().dom().contains(now) && self.handles()[now] == h;
                        assert(old(self).handles().dom().contains(now));
                        assert(now == id);
                    }
                    if !over(before[id]) {
                        assert(self.handles().dom().contains(id));
                    }
                }
            }
        }
        wakers
    }
}

/// The connections in the stack and its sockets belong together: each of those connections has one
/// socket of its own, which holds what the connection shows of it, and no socket is left over.
pub proof fn law_sockets_belong_to_connections<W>(manager: TcpSocketManager<W>)
    requires
        manager.wf(),
    ensures
        forall|id: u64| #[trigger]
            manager.handles().dom().contains(id) <==> manager@.dom().contains(id)
                && manager@[id].socket is Some,
        forall|id: u64| #[trigger]
            manager.handles().dom().contains(id) ==> manager.sockets().dom().contains(
                manager.handles()[id],
            ) && manager@[id].socket == Some(
                socket_model(manager.sockets()[manager.handles()[id]]),
            ),
        forall|a: u64, b: u64|
            #![trigger manager.handles().dom().contains(a), manager.handles().dom().contains(b)]
            manager.handles().dom().contains(a) && manager.handles().dom().contains(b)
                && manager.handles()[a] == manager.handles()[b] ==> a == b,
        forall|h: SocketHandle| #[trigger]
            manager.sockets().dom().contains(h) ==> exists|id: u64| #[trigger]
                manager.handles().dom().contains(id) && manager.handles()[id] == h,
{
    let connections = manager.connections@;
    assert forall|id: u64| #[trigger]
        manager.handles().dom().contains(id) <==> manager@.dom().contains(id)
            && manager@[id].socket is Some by {
        assert(connections.dom().contains(id) <==> manager@.dom().contains(id));
    }
    assert forall|id: u64| #[trigger] manager.handles().dom().contains(id) implies
        manager.sockets().dom().contains(manager.handles()[id]) && manager@[id].socket == Some(
        socket_model(manager.sockets()[manager.handles()[id]]),
    ) by {
        assert(connections.dom().contains(id));
    }
    assert forall|a: u64, b: u64|
        #![trigger manager.handles().dom().contains(a), manager.handles().dom().contains(b)]
        manager.handles().dom().contains(a) && manager.handles().dom().contains(b)
            && manager.handles()[a] == manager.handles()[b] implies a == b by {
        assert(connections.dom().contains(a) && connections.dom().contains(b));
    }
    assert forall|h: SocketHandle| #[trigger] manager.sockets().dom().contains(h) implies exists|
        id: u64,
    | #[trigger] manager.handles().dom().contains(id) && manager.handles()[id] == h by {
        let id = choose|id: u64| #[trigger]
            connections.dom().contains(id) && connections[id].handle == Some(h);
        assert(manager.handles().dom().contains(id));
    }
}

/// Looking after all connections loses no byte of any of them, and keeps them in order; only a
/// connection that nothing is left of is forgotten.
pub proof fn law_servicing_all_conserves_bytes<W>(
    connections: Map<u64, ConnectionModel<W>>,
    id: u64,
)
    requires
        connections.dom().contains(id),
    ensures
        ({
            let after = all_serviced(connections);
            let c = connections[id];
            &&& !after.dom().contains(id) ==> !c.held && (c.socket matches Some(s)
                ==> s.state is Closed)
            &&& after.dom().contains(id) ==> match (c.socket, after[id].socket) {
                (Some(s), Some(t)) => {
                    &&& after[id].control.recv + t.received == c.control.recv + s.received
                    &&& t.unsent + after[id].control.send == s.unsent + c.control.send
                },
                (Some(_), None) | (None, None) => {
                    &&& after[id].control.recv == c.control.recv
                    &&& after[id].control.send == c.control.send
                },
                (None, Some(_)) => false,
            }
        }),
{
    if let Some(s) = connections[id].socket {
        law_service_conserves_bytes(connections[id].control, s);
    }
}

/// Looking after all connections forgets exactly those that nobody holds and whose sockets were
/// closed or gone before. Of every other one it keeps who holds it, takes the socket away exactly
/// where that was closed, and leaves nothing that can be moved between the socket and the
/// program's side.
pub proof fn law_servicing_all_keeps_connections<W>(
    connections: Map<u64, ConnectionModel<W>>,
    id: u64,
)
    ensures
        ({
            let after = all_serviced(connections);
            let c = connections[id];
            let open = c.socket matches Some(s) && s.state != TcpState::Closed;
            &&& after.dom().contains(id) <==> connections.dom().contains(id) && (c.held || open)
            &&& after.dom().contains(id) ==> {
                let d = after[id];
                &&& d.held == c.held
                &&& d.socket is Some <==> open
                &&& c.socket is None ==> d == c
                &&& c.socket is Some && !open ==> {
                    &&& d.control.send_state == TcpSocketState::Closed
                    &&& d.control.recv_state == TcpSocketState::Closed
                    &&& d.control.send_waker is None && d.control.recv_waker is None
                }
                &&& d.socket matches Some(t) ==> {
                    &&& t.received.len() == 0 || d.control.recv.len() >= d.control.recv_capacity
                    &&& d.control.send.len() == 0 || t.unsent.len() >= t.send_capacity || !(t.state
                        == TcpState::Established || t.state == TcpState::CloseWait)
                }
            }
        }),
{
    if let Some(s) = connections[id].socket {
        if s.state != TcpState::Closed {
            law_service_goes_as_far_as_it_can(connections[id].control, s);
        } else {
            law_closed_sockets_end_connections(connections[id].control, s);
        }
    }
}

/// Whoever waits at a connection and is forgotten by it is woken, nobody else is, and nobody twice:
/// a reader where something came to read or the stream ended, a writer where something went out or
/// the connection ended.
pub proof fn law_forgotten_waits_are_woken<W>(c: ConnectionModel<W>)
    ensures
        ({
            let d = serviced(c);
            let reader = if c.control.recv_waker is Some && d.control.recv_waker is None {
                seq![c.control.recv_waker.unwrap()]
            } else {
                Seq::empty()
            };
            let writer = if c.control.send_waker is Some && d.control.send_waker is None {
                seq![c.control.send_waker.unwrap()]
            } else {
                Seq::empty()
            };
            &&& woken(c).to_multiset() =~= reader.to_multiset().add(writer.to_multiset())
            &&& over(c) ==> woken(c) == writer + reader
            &&& !over(c) ==> woken(c) == reader + writer
            &&& d.control.recv_waker is Some ==> d.control.recv_waker == c.control.recv_waker
            &&& d.control.send_waker is Some ==> d.control.send_waker == c.control.send_waker
            &&& c.socket is Some && over(c) ==> d.control.recv_waker is None
                && d.control.send_waker is None
        }),
{
    let d = serviced(c);
    let reader = if c.control.recv_waker is Some && d.control.recv_waker is None {
        seq![c.control.recv_waker.unwrap()]
    } else {
        Seq::empty()
    };
    let writer = if c.control.send_waker is Some && d.control.send_waker is None {
        seq![c.control.send_waker.unwrap()]
    } else {
        Seq::empty()
    };
    assert(over(c) ==> woken(c) =~= writer + reader);
    assert(!over(c) ==> woken(c) =~= reader + writer);
    vstd::seq_lib::lemma_multiset_commutative(reader, writer);
    vstd::seq_lib::lemma_multiset_commutative(writer, reader);
}

/// Whoever is to be woken at one of the connections that were looked after is among those that are
/// woken in all.
pub proof fn law_everyone_is_woken<W>(
    connections: Map<u64, ConnectionModel<W>>,
    ids: Seq<u64>,
    i: int,
    w: W,
)
    requires
        0 <= i < ids.len(),
        woken(connections[ids[i]]).contains(w),
    ensures
        all_woken(connections, ids).contains(w),
    decreases ids.len(),
{
    let front = all_woken(connections, ids.drop_last());
    let back = woken(connections[ids.last()]);
    if i < ids.len() - 1 {
        law_everyone_is_woken(connections, ids.drop_last(), i, w);
        let k = choose|k: int| 0 <= k < front.len() && front[k] == w;
        assert((front + back)[k] == w);
    } else {
        let k = choose|k: int| 0 <= k < back.len() && back[k] == w;
        assert((front + back)[front.len() + k] == w);
    }
}

/// The connections that are looked after one after the other wake their tasks one after the other,
/// and nobody else is woken.
pub proof fn law_tasks_are_woken_in_order<W>(
    connections: Map<u64, ConnectionModel<W>>,
    ids: Seq<u64>,
    id: u64,
)
    ensures
        all_woken(connections, Seq::empty()) == Seq::<W>::empty(),
        all_woken(connections, ids.push(id)) == all_woken(connections, ids) + woken(
            connections[id],
        ),
{
    assert(ids.push(id).drop_last() =~= ids);
}

} // verus!
