//! Questions that go on to another resolver, and the way back of its answers.
//!
//! Each question gets a number of its own on the way out. What number it had before, who asked
//! and whom is kept until the answer comes or the question is too old.

use crate::addr::SocketAddr;
use crate::dns_message::{
    law_single_options_have_one_order, message_from_vec, message_id, message_model,
    message_set_id, message_to_vec, orders_options, parsed, single_options, written, writes_as,
    MessageModel,
};
use crate::wire::be16;
use std::collections::HashMap;
use vstd::prelude::*;

verus! {

/// How many sockets questions are spread over.
pub const MAX_UPSTREAM: u8 = 8;

/// A second, in nanoseconds.
pub const NANOS_PER_SEC: u64 = 1_000_000_000;

/// Who asks, and whom.
#[derive(Debug, Clone, Copy, PartialEq, Eq, Structural)]
pub struct UdpPeer {
    pub src: SocketAddr,
    pub dest: SocketAddr,
}

/// A question that is on its way.
#[derive(Debug, Clone, Copy, PartialEq, Eq, Structural)]
pub struct DnsSession {
    pub peer: UdpPeer,
    /// The number that the question came with.
    pub old_id: u16,
    /// The number that it went out with.
    pub id: u16,
    /// When it went out, in nanoseconds.
    pub time: u64,
}

/// Whether a packet can come out as this one under another number, or as none where it cannot be
/// written again. One that holds no message never comes out.
pub open spec fn renumbered(packet: Seq<u8>, id: u16, sent: Option<Seq<u8>>) -> bool {
    match parsed(packet) {
        Some(message) => writes_as(MessageModel { id, ..message }, sent),
        None => sent is None,
    }
}

/// The message in `packet`, given the number `id`: the number that it had, and its packet where
/// it can be written. There is no message where the packet holds none.
fn renumber(packet: &[u8], id: u16) -> (sent: Option<(u16, Option<Vec<u8>>)>)
    ensures
        match (sent, parsed(packet@)) {
            (Some((old_id, bytes)), Some(message)) => {
                &&& old_id == message.id
                &&& renumbered(
                    packet@,
                    id,
                    match bytes {
                        Some(b) => Some(b@),
                        None => None,
                    },
                )
                &&& bytes matches Some(b) ==> b@.len() >= 12 && b@.take(2) == be16(id)
            },
            (None, None) => true,
            _ => false,
        },
{
    let mut message = match message_from_vec(packet) {
        Ok(message) => message,
        Err(_) => return None,
    };
    let old_id: u16 = message_id(&message);
    message_set_id(&mut message, id);
    match message_to_vec(&message) {
        Ok(bytes) => {
            proof {
                assert(writes_as(message_model(message), Some(bytes@)));
            }
            Some((old_id, Some(bytes)))
        },
        Err(_) => {
            proof {
                assert(writes_as(message_model(message), None));
            }
            Some((old_id, None))
        },
    }
}

/// The questions on their way as a value.
pub struct TableModel {
    pub next_id: u16,
    pub sessions: Map<u16, DnsSession>,
}

/// Whether a question went out so long ago that it is given up: more whole seconds than
/// `timeout`.
pub open spec fn expired(session: DnsSession, now: u64, timeout: u64) -> bool {
    session.time <= now && (now - session.time) / (NANOS_PER_SEC as int) > timeout
}

/// The question of a packet under the number `id`.
pub open spec fn session_of(
    peer: UdpPeer,
    question: MessageModel,
    id: u16,
    time: u64,
) -> DnsSession {
    DnsSession { peer, old_id: question.id, id, time }
}

/// The number for the question after one with the number `id`.
pub open spec fn number_after(id: u16) -> u16 {
    if id < u16::MAX {
        (id + 1) as u16
    } else {
        0
    }
}

/// Numbers are given one after the other: each is one more than the one before, and the largest is
/// followed by zero, so that no two questions in a row have one number and none is left out.
pub proof fn law_numbers_follow_each_other(id: u16)
    ensures
        number_after(id) == (id + 1) % 0x1_0000,
        number_after(id) != id,
{
}

/// The questions on their way after one more went out.
pub open spec fn kept(table: TableModel, session: DnsSession) -> TableModel {
    TableModel { sessions: table.sessions.insert(session.id, session), ..table }
}

/// The question that an answer belongs to, where it is on its way.
pub open spec fn answered(table: TableModel, packet: Seq<u8>) -> Option<DnsSession> {
    match parsed(packet) {
        Some(answer) if table.sessions.dom().contains(answer.id) => Some(
            table.sessions[answer.id],
        ),
        _ => None,
    }
}

/// The questions on their way after an answer came.
pub open spec fn after_answer(table: TableModel, packet: Seq<u8>) -> TableModel {
    match answered(table, packet) {
        Some(_) => TableModel {
            sessions: table.sessions.remove(parsed(packet).unwrap().id),
            ..table
        },
        None => table,
    }
}

/// Whether this can become of an answer on the way back: its packet under the number that the
/// question came with, from whom was asked to who asked. It comes to nothing where it cannot be
/// written again. Answers to nothing that is on its way are passed over.
pub open spec fn relays(
    table: TableModel,
    packet: Seq<u8>,
    relayed: Option<(Seq<u8>, SocketAddr, SocketAddr)>,
) -> bool {
    match (answered(table, packet), relayed) {
        (Some(session), Some((data, from, to))) => {
            &&& renumbered(packet, session.old_id, Some(data))
            &&& from == session.peer.dest
            &&& to == session.peer.src
        },
        (Some(session), None) => renumbered(packet, session.old_id, None),
        (None, relayed) => relayed is None,
    }
}

/// Whether `id` stands in `ids` at the place `from` or behind it.
spec fn comes_from(ids: Seq<&u16>, from: int, id: u16) -> bool {
    exists|j: int| from <= j < ids.len() && *#[trigger] ids[j] == id
}

/// What an answer becomes on the way back.
#[derive(Debug)]
pub struct Relayed {
    pub data: Vec<u8>,
    pub from: SocketAddr,
    pub to: SocketAddr,
}

/// What an answer becomes on the way back, as a value.
pub open spec fn relayed_model(relayed: Option<Relayed>) -> Option<
    (Seq<u8>, SocketAddr, SocketAddr),
> {
    match relayed {
        Some(r) => Some((r.data@, r.from, r.to)),
        None => None,
    }
}

/// The questions that are on their way, and the number that the next one gets.
pub struct DnsTable {
    next_id: u16,
    sessions: HashMap<u16, DnsSession>,
}

impl View for DnsTable {
    type V = TableModel;

    closed spec fn view(&self) -> TableModel {
        TableModel { next_id: self.next_id, sessions: self.sessions@ }
    }
}

impl DnsTable {
    /// No question is on its way, and the first gets number one.
    pub fn new() -> (table: Self)
        ensures
            table@ == (TableModel { next_id: 1, sessions: Map::empty() }),
    {
        DnsTable { next_id: 1, sessions: HashMap::new() }
    }

    /// The number for the next question. After the largest comes zero.
    pub fn take_id(&mut self) -> (id: u16)
        ensures
            id == old(self)@.next_id,
            final(self)@ == (TableModel {
                next_id: if id == u16::MAX {
                    0
                } else {
                    (id + 1) as u16
                },
                ..old(self)@
            }),
            final(self)@.next_id == number_after(id),
    {
        let id: u16 = self.next_id;
        self.next_id = id.wrapping_add(1);
        id
    }

    /// Keeps a question that went out. One that went out under the same number is forgotten.
    pub fn insert(&mut self, session: DnsSession)
        ensures
            final(self)@ == kept(old(self)@, session),
    {
        self.sessions.insert(session.id, session);
    }

    /// The question that an answer with this number belongs to. It is forgotten then.
    pub fn take_session(&mut self, id: u16) -> (session: Option<DnsSession>)
        ensures
            session == (if old(self)@.sessions.dom().contains(id) {
                Some(old(self)@.sessions[id])
            } else {
                None
            }),
            final(self)@ == (TableModel {
                sessions: old(self)@.sessions.remove(id),
                ..old(self)@
            }),
    {
        let session = self.sessions.remove(&id);
        proof {
            assert(self@.sessions =~= old(self)@.sessions.remove(id));
        }
        session
    }

    /// Sends an answer back to where the question came from, under the number that it came with.
    pub fn on_reply(&mut self, packet: &[u8]) -> (relayed: Option<Relayed>)
        ensures
            final(self)@ == after_answer(old(self)@, packet@),
            relays(old(self)@, packet@, relayed_model(relayed)),
            relayed matches Some(r) ==> r.data@.take(2) == be16(
                answered(old(self)@, packet@).unwrap().old_id,
            ),
    {
        let mut message = match message_from_vec(packet) {
            Ok(message) => message,
            Err(_) => return None,
        };
        let session = match self.take_session(message_id(&message)) {
            Some(session) => session,
            None => {
                proof {
                    assert(self@.sessions =~= old(self)@.sessions);
                }
                return None;
            },
        };
        message_set_id(&mut message, session.old_id);
        match message_to_vec(&message) {
            Ok(data) => {
                proof {
                    assert(writes_as(message_model(message), Some(data@)));
                }
                Some(Relayed { data, from: session.peer.dest, to: session.peer.src })
            },
            Err(_) => {
                proof {
                    assert(writes_as(message_model(message), None));
                }
                None
            },
        }
    }

    /// Forgets the questions that went out too long ago.
    pub fn expire(&mut self, now: u64, timeout: u64)
        ensures
            final(self)@.next_id == old(self)@.next_id,
            forall|id: u16| #[trigger]
                final(self)@.sessions.dom().contains(id) <==> old(self)@.sessions.dom().contains(id)
                    && !expired(old(self)@.sessions[id], now, timeout),
            forall|id: u16| #[trigger]
                final(self)@.sessions.dom().contains(id) ==> final(self)@.sessions[id] == old(
                    self,
                )@.sessions[id],
    {
        let ghost before = self.sessions@;
        let mut removed: Vec<u16> = Vec::new();
        for id in ids: self.sessions.keys()
            invariant
                self.sessions@ == before,
                ids.seq().unref().to_set() == before.dom(),
                forall|id: u16| #[trigger]
                    before.dom().contains(id) && expired(before[id], now, timeout)
                        ==> removed@.contains(id) || comes_from(ids.seq(), ids.index() as int, id),
                forall|j: int|
                    0 <= j < removed@.len() ==> before.dom().contains(#[trigger] removed@[j])
                        && expired(before[removed@[j]], now, timeout),
        {
            let ghost taken = removed@;
            if let Some(session) = self.sessions.get(id) {
                if session.time <= now && (now - session.time) / NANOS_PER_SEC > timeout {
                    removed.push(*id);
                    proof {
                        assert(removed@[taken.len() as int] == *id);
                        assert forall|x: u16| taken.contains(x) implies removed@.contains(x) by {
                            let k = choose|k: int| 0 <= k < taken.len() && taken[k] == x;
                            assert(removed@[k] == x);
                        }
                    }
                }
            }
        }
        let mut i: usize = 0;
        while i < removed.len()
            invariant
                i <= removed@.len(),
                self.next_id == old(self).next_id,
                forall|id: u16| #[trigger]
                    self.sessions@.dom().contains(id) <==> before.dom().contains(id)
                        && !removed@.take(i as int).contains(id),
                forall|id: u16| #[trigger]
                    self.sessions@.dom().contains(id) ==> self.sessions@[id] == before[id],
            decreases removed@.len() - i,
        {
            let id: u16 = removed[i];
            let _ = self.sessions.remove(&id);
            proof {
                assert(removed@.take(i + 1) =~= removed@.take(i as int).push(id));
                assert forall|x: u16|
                    removed@.take(i + 1).contains(x) == (removed@.take(i as int).contains(x) || x
                        == id) by {
                    let front = removed@.take(i as int);
                    let more = removed@.take(i + 1);
                    if front.contains(x) {
                        let k = choose|k: int| 0 <= k < front.len() && front[k] == x;
                        assert(more[k] == x);
                    }
                    if x == id {
                        assert(more[i as int] == x);
                    }
                }
            }
            i = i + 1;
        }
        proof {
            assert(removed@.take(i as int) =~= removed@);
        }
    }
}

/// How far the sending of one question has come.
pub enum SendState {
    /// Nothing is being sent.
    Begin,
    /// The packet is being sent.
    Send(Vec<u8>),
    /// The question has been sent and is to be kept.
    SessionsLock,
}

/// How far the sending of one question has come, as a value.
pub enum SendStateModel {
    Begin,
    Send(Seq<u8>),
    SessionsLock,
}

/// What came of handing a packet to the socket.
#[derive(Debug, Clone, Copy, PartialEq, Eq, Structural)]
pub enum SendOutcome {
    Sent(usize),
    WouldBlock,
    Pending,
    Failed,
}

/// What to do after that.
#[derive(Debug, Clone, Copy, PartialEq, Eq, Structural)]
pub enum AfterSend {
    /// Wait.
    Pending,
    /// Keep the question.
    Keep,
    /// Stop sending.
    Stop,
}

/// A sender as a value.
pub struct SenderModel {
    pub state: SendStateModel,
    pub session: Option<DnsSession>,
    /// How much of the packet has been sent.
    pub sendn: usize,
}

impl SenderModel {
    /// There is a question wherever one is being sent, and no more of it has been sent than there
    /// is.
    pub open spec fn wf(self) -> bool {
        match self.state {
            SendStateModel::Begin => self.sendn == 0,
            SendStateModel::Send(packet) => self.session is Some && self.sendn <= packet.len(),
            SendStateModel::SessionsLock => self.session is Some,
        }
    }
}

/// The sender, and what to do, after the socket was given what is left of a packet.
pub open spec fn after_outcome(sender: SenderModel, packet: Seq<u8>, outcome: SendOutcome) -> (
    SenderModel,
    AfterSend,
) {
    match outcome {
        SendOutcome::Sent(n) => if sender.sendn + n < packet.len() {
            (SenderModel { sendn: (sender.sendn + n) as usize, ..sender }, AfterSend::Pending)
        } else {
            (
                SenderModel {
                    state: SendStateModel::SessionsLock,
                    sendn: (sender.sendn + n) as usize,
                    ..sender
                },
                AfterSend::Keep,
            )
        },
        SendOutcome::Failed => (sender, AfterSend::Stop),
        _ => (sender, AfterSend::Pending),
    }
}

/// Sends one question after the other.
pub struct SendFut {
    state: SendState,
    session: Option<DnsSession>,
    sendn: usize,
}

impl View for SendFut {
    type V = SenderModel;

    closed spec fn view(&self) -> SenderModel {
        SenderModel {
            state: match self.state {
                SendState::Begin => SendStateModel::Begin,
                SendState::Send(packet) => SendStateModel::Send(packet@),
                SendState::SessionsLock => SendStateModel::SessionsLock,
            },
            session: self.session,
            sendn: self.sendn,
        }
    }
}

impl SendFut {
    /// A sender that has sent nothing.
    pub fn new() -> (sender: Self)
        ensures
            sender@ == (SenderModel {
                state: SendStateModel::Begin,
                session: None,
                sendn: 0,
            }),
            sender@.wf(),
    {
        SendFut { state: SendState::Begin, session: None, sendn: 0 }
    }

    /// How far the sending has come.
    pub fn state(&self) -> (state: &SendState)
        ensures
            match (*state, self@.state) {
                (SendState::Begin, SendStateModel::Begin) => true,
                (SendState::Send(p), SendStateModel::Send(packet)) => p@ == packet,
                (SendState::SessionsLock, SendStateModel::SessionsLock) => true,
                _ => false,
            },
    {
        &self.state
    }

    /// Starts with a question: gives it the number `id` and remembers the one it had. A packet
    /// that holds no message is passed over, and so is one that cannot be written again.
    pub fn begin(&mut self, peer: UdpPeer, packet: &[u8], id: u16, now: u64) -> (begun: bool)
        requires
            old(self)@.wf(),
            old(self)@.state is Begin,
        ensures
            final(self)@.wf(),
            match parsed(packet@) {
                None => !begun && final(self)@ == old(self)@,
                Some(message) => {
                    &&& final(self)@.session == Some(session_of(peer, message, id, now))
                    &&& final(self)@.sendn == 0
                    &&& match final(self)@.state {
                        SendStateModel::Send(bytes) => {
                            &&& begun
                            &&& renumbered(packet@, id, Some(bytes))
                            &&& bytes.take(2) == be16(id)
                        },
                        SendStateModel::Begin => !begun && renumbered(packet@, id, None),
                        SendStateModel::SessionsLock => false,
                    }
                },
            },
    {
        match renumber(packet, id) {
            None => false,
            Some((old_id, bytes)) => {
                self.session = Some(DnsSession { peer, old_id, id, time: now });
                match bytes {
                    Some(bytes) => {
                        self.state = SendState::Send(bytes);
                        true
                    },
                    None => false,
                }
            },
        }
    }

    /// What has to be handed to the socket, and where it goes.
    pub fn unsent(&self) -> (unsent: Option<(&[u8], SocketAddr)>)
        requires
            self@.wf(),
        ensures
            match self@.state {
                SendStateModel::Send(packet) => unsent matches Some((rest, dest)) && rest@
                    == packet.skip(self@.sendn as int) && dest == self@.session.unwrap().peer.dest,
                _ => unsent is None,
            },
    {
        match (&self.state, &self.session) {
            (SendState::Send(packet), Some(session)) => {
                let all = packet.as_slice();
                let len: usize = all.len();
                let rest = &all[self.sendn..len];
                proof {
                    assert(rest@ =~= packet@.skip(self.sendn as int));
                }
                Some((rest, session.peer.dest))
            },
            _ => None,
        }
    }

    /// Goes on after the socket was given what is left of the packet.
    pub fn after_send(&mut self, outcome: SendOutcome) -> (after: AfterSend)
        requires
            old(self)@.wf(),
            old(self)@.state matches SendStateModel::Send(packet) && (outcome matches
                SendOutcome::Sent(n) ==> n <= packet.len() - old(self)@.sendn),
        ensures
            final(self)@.wf(),
            final(self)@.session == old(self)@.session,
            old(self)@.state matches SendStateModel::Send(packet) && match outcome {
                SendOutcome::Sent(n) => {
                    &&& final(self)@.sendn == old(self)@.sendn + n
                    &&& if old(self)@.sendn + n < packet.len() {
                        after is Pending && final(self)@.state == old(self)@.state
                    } else {
                        after is Keep && final(self)@.state is SessionsLock
                    }
                },
                SendOutcome::Failed => after is Stop && final(self)@ == old(self)@,
                _ => after is Pending && final(self)@ == old(self)@,
            },
            old(self)@.state matches SendStateModel::Send(packet) && (final(self)@, after)
                == after_outcome(old(self)@, packet, outcome),
    {
        match outcome {
            SendOutcome::Sent(n) => {
                let len: usize = match &self.state {
                    SendState::Send(packet) => packet.len(),
                    _ => 0,
                };
                self.sendn = self.sendn + n;
                if self.sendn < len {
                    AfterSend::Pending
                } else {
                    self.state = SendState::SessionsLock;
                    AfterSend::Keep
                }
            },
            SendOutcome::Failed => AfterSend::Stop,
            _ => AfterSend::Pending,
        }
    }

    /// Keeps the question that was sent, and is ready for the next.
    pub fn keep(&mut self, table: &mut DnsTable)
        requires
            old(self)@.wf(),
            old(self)@.state is SessionsLock,
        ensures
            final(self)@.wf(),
            final(self)@ == (SenderModel {
                state: SendStateModel::Begin,
                session: None,
                sendn: 0,
            }),
            final(table)@ == kept(old(table)@, old(self)@.session.unwrap()),
    {
        if let Some(session) = self.session.take() {
            table.insert(session);
        }
        self.sendn = 0;
        self.state = SendState::Begin;
    }
}

/// Which socket a question goes out by.
#[derive(Debug, Clone, Copy, PartialEq, Eq, Structural)]
pub enum UpstreamChoice {
    /// One that is there, by its place.
    Existing(usize),
    /// One that has to be made, and comes after those that are there.
    New,
}

/// The socket for a question, given how many there were before it.
pub open spec fn upstream_for(count: nat) -> UpstreamChoice {
    if count < MAX_UPSTREAM {
        UpstreamChoice::New
    } else {
        UpstreamChoice::Existing((count % (MAX_UPSTREAM as nat)) as usize)
    }
}

/// Spreads questions over sockets, which are made as they are needed.
pub struct DnsProxy {
    idx: usize,
    upstream: usize,
}

impl DnsProxy {
    /// How many questions there have been.
    pub closed spec fn count(&self) -> nat {
        self.idx as nat
    }

    /// How many sockets there are.
    pub closed spec fn sockets(&self) -> nat {
        self.upstream as nat
    }

    /// There is a socket for each of the first questions, up to the most.
    pub open spec fn wf(&self) -> bool {
        self.sockets() == (if self.count() < MAX_UPSTREAM {
            self.count()
        } else {
            MAX_UPSTREAM as nat
        })
    }

    /// There have been no questions.
    pub fn new() -> (proxy: Self)
        ensures
            proxy.wf(),
            proxy.count() == 0,
    {
        DnsProxy { idx: 0, upstream: 0 }
    }

    /// Whether one more question can be counted.
    pub fn can_send(&self) -> (can: bool)
        ensures
            can == (self.count() < usize::MAX),
    {
        self.idx < usize::MAX
    }

    /// The socket for the next question: they take turns, and the first round makes them.
    pub fn send(&mut self) -> (choice: UpstreamChoice)
        requires
            old(self).wf(),
            old(self).count() < usize::MAX,
        ensures
            final(self).wf(),
            final(self).count() == old(self).count() + 1,
            choice == (if old(self).count() < MAX_UPSTREAM {
                UpstreamChoice::New
            } else {
                UpstreamChoice::Existing((old(self).count() % (MAX_UPSTREAM as nat)) as usize)
            }),
            choice == upstream_for(old(self).count()),
    {
        let at: usize = self.idx % MAX_UPSTREAM as usize;
        self.idx = self.idx + 1;
        if at < self.upstream {
            UpstreamChoice::Existing(at)
        } else {
            self.upstream = self.upstream + 1;
            UpstreamChoice::New
        }
    }
}

/// The answer to a question that went out goes back to who asked, from whom was asked, under the
/// number that the question came with; a second answer is passed over.
pub proof fn law_answers_find_their_question(
    table: TableModel,
    peer: UdpPeer,
    question: MessageModel,
    id: u16,
    time: u64,
    packet: Seq<u8>,
    relayed: Option<(Seq<u8>, SocketAddr, SocketAddr)>,
    again: Option<(Seq<u8>, SocketAddr, SocketAddr)>,
)
    requires
        parsed(packet) is Some,
        parsed(packet).unwrap().id == id,
        relays(kept(table, session_of(peer, question, id, time)), packet, relayed),
        relays(
            after_answer(kept(table, session_of(peer, question, id, time)), packet),
            packet,
            again,
        ),
    ensures
        match relayed {
            Some((data, from, to)) => {
                &&& renumbered(packet, question.id, Some(data))
                &&& from == peer.dest
                &&& to == peer.src
            },
            None => renumbered(packet, question.id, None),
        },
        again is None,
        ({
            let after = after_answer(kept(table, session_of(peer, question, id, time)), packet);
            &&& !after.sessions.dom().contains(id)
            &&& after_answer(after, packet) == after
        }),
{
}

/// A packet whose OPT records have at most one option each comes out in one way only under another
/// number, so that what is sent is settled by what came.
pub proof fn law_renumbering_is_settled(
    packet: Seq<u8>,
    id: u16,
    a: Option<Seq<u8>>,
    b: Option<Seq<u8>>,
)
    requires
        parsed(packet) matches Some(message) ==> single_options(message.options),
        renumbered(packet, id, a),
        renumbered(packet, id, b),
    ensures
        a == b,
{
    if let Some(message) = parsed(packet) {
        law_single_options_have_one_order(MessageModel { id, ..message }, a, b);
    }
}

/// A question that goes out under another number leaves a question where it is.
pub proof fn law_other_questions_leave_a_question(table: TableModel, id: u16, other: DnsSession)
    requires
        table.sessions.dom().contains(id),
        other.id != id,
    ensures
        kept(table, other).sessions.dom().contains(id),
        kept(table, other).sessions[id] == table.sessions[id],
{
}

/// An answer under another number leaves a question where it is.
pub proof fn law_other_answers_leave_a_question(table: TableModel, id: u16, packet: Seq<u8>)
    requires
        table.sessions.dom().contains(id),
        parsed(packet) matches Some(answer) ==> answer.id != id,
    ensures
        after_answer(table, packet).sessions.dom().contains(id),
        after_answer(table, packet).sessions[id] == table.sessions[id],
{
}

/// A packet goes on exactly where it holds a message that can be written, and nothing of the
/// message changes but its number.
pub proof fn law_only_the_number_changes(packet: Seq<u8>, id: u16, sent: Option<Seq<u8>>)
    requires
        renumbered(packet, id, sent),
    ensures
        parsed(packet) is None ==> sent is None,
        parsed(packet) matches Some(message) ==> exists|
            as_sent: MessageModel,
            orders: Seq<Seq<u16>>,
        |
            {
                &&& #[trigger] written(as_sent, orders) == sent
                &&& orders_options(orders, message.options)
                &&& as_sent.id == id
                &&& as_sent.response == message.response
                &&& as_sent.op_code == message.op_code
                &&& as_sent.recursion_available == message.recursion_available
                &&& as_sent.recursion_desired == message.recursion_desired
                &&& as_sent.response_code == message.response_code
                &&& as_sent.queries == message.queries
                &&& as_sent.answers == message.answers
                &&& as_sent.options == message.options
                &&& as_sent.rest == message.rest
            },
{
    if let Some(message) = parsed(packet) {
        let as_sent = MessageModel { id, ..message };
        let orders = choose|orders: Seq<Seq<u16>>|
            orders_options(orders, as_sent.options) && #[trigger] written(as_sent, orders) == sent;
        assert(written(as_sent, orders) == sent);
    }
}

/// A question is given up once more whole seconds have passed since it went out than it has: not
/// before, and from then on for good.
pub proof fn law_questions_are_given_up_in_time(
    session: DnsSession,
    now: u64,
    later: u64,
    timeout: u64,
)
    ensures
        expired(session, now, timeout) <==> now - session.time >= (timeout + 1) * 1_000_000_000,
        now <= later && expired(session, now, timeout) ==> expired(session, later, timeout),
{
    let age = now - session.time;
    let later_age = later - session.time;
    assert(age >= 0 ==> (age / 1_000_000_000 > timeout <==> age >= (timeout + 1)
        * 1_000_000_000)) by (nonlinear_arith);
    assert(later_age >= 0 ==> (later_age / 1_000_000_000 > timeout <==> later_age >= (timeout + 1)
        * 1_000_000_000)) by (nonlinear_arith);
}

/// A question that goes out is kept under the number that it goes out with, with the number that
/// it came with, who asked, who is asked and when; the others stay, and the numbers go on.
pub proof fn law_questions_are_kept_by_number(
    table: TableModel,
    peer: UdpPeer,
    question: MessageModel,
    id: u16,
    time: u64,
    other: u16,
)
    requires
        other != id,
    ensures
        ({
            let after = kept(table, session_of(peer, question, id, time));
            &&& after.sessions.dom().contains(id)
            &&& after.sessions[id].id == id && after.sessions[id].old_id == question.id
            &&& after.sessions[id].peer == peer && after.sessions[id].time == time
            &&& after.sessions.dom().contains(other) == table.sessions.dom().contains(other)
            &&& table.sessions.dom().contains(other) ==> after.sessions[other]
                == table.sessions[other]
            &&& after.next_id == table.next_id
        }),
{
}

/// An answer is relayed exactly where a question of its number is on its way and it can be written
/// again: from whom was asked, to who asked, under the number that the question came with. It takes
/// that question off the way and no other. What is no answer changes nothing and comes to nothing.
pub proof fn law_answers_take_their_question_off(
    table: TableModel,
    packet: Seq<u8>,
    relayed: Option<(Seq<u8>, SocketAddr, SocketAddr)>,
    other: u16,
)
    requires
        relays(table, packet, relayed),
    ensures
        ({
            let after = after_answer(table, packet);
            let id = parsed(packet).unwrap().id;
            let known = parsed(packet) is Some && table.sessions.dom().contains(id);
            let session = table.sessions[id];
            &&& relayed is Some ==> known
            &&& !known ==> after == table
            &&& known ==> !after.sessions.dom().contains(id)
            &&& relayed matches Some((data, from, to)) ==> {
                &&& from == session.peer.dest && to == session.peer.src
                &&& renumbered(packet, session.old_id, Some(data))
            }
            &&& known && relayed is None ==> renumbered(packet, session.old_id, None)
            &&& !known || other != id ==> {
                &&& after.sessions.dom().contains(other) == table.sessions.dom().contains(other)
                &&& table.sessions.dom().contains(other) ==> after.sessions[other]
                    == table.sessions[other]
            }
            &&& after.next_id == table.next_id
        }),
{
}

/// A packet is sent until nothing of it is left: what a socket takes comes off the front of what
/// is left, and the question is kept exactly where it took the last of it. Where it takes nothing
/// everything is left, and only a failure stops the sending.
pub proof fn law_packets_are_sent_to_the_end(
    sender: SenderModel,
    packet: Seq<u8>,
    outcome: SendOutcome,
)
    requires
        sender.wf(),
        sender.state == SendStateModel::Send(packet),
        packet.len() <= usize::MAX,
        outcome matches SendOutcome::Sent(n) ==> n <= packet.len() - sender.sendn,
    ensures
        ({
            let (after, what) = after_outcome(sender, packet, outcome);
            let left = packet.skip(sender.sendn as int);
            &&& after.wf()
            &&& after.session == sender.session
            &&& what is Stop <==> outcome is Failed
            &&& what is Keep <==> (outcome matches SendOutcome::Sent(n) && n == left.len())
            &&& what is Keep ==> after.state is SessionsLock
            &&& !(what is Keep) ==> after.state == sender.state
            &&& match outcome {
                SendOutcome::Sent(n) => packet.skip(after.sendn as int) == left.skip(n as int),
                _ => after == sender,
            }
        }),
{
    if let SendOutcome::Sent(n) = outcome {
        assert(packet.skip(sender.sendn as int).skip(n as int) =~= packet.skip(sender.sendn + n));
    }
}

/// The first eight questions make a socket each, and after that the sockets take turns: each eight
/// questions in a row go by different ones.
pub proof fn law_sockets_take_turns(count: nat, later: nat)
    requires
        count < later < count + 8,
    ensures
        upstream_for(count) is New <==> count < 8,
        upstream_for(count) matches UpstreamChoice::Existing(i) ==> i < 8 && upstream_for(
            count + 8,
        ) == UpstreamChoice::Existing(i),
        upstream_for(count) is Existing ==> upstream_for(later) != upstream_for(count),
        8 <= count < 16 ==> upstream_for(count) == UpstreamChoice::Existing((count - 8) as usize),
{
}

} // verus!
