//! Connections to remote resolvers that can be used again.

use crate::addr::SocketAddr;
use crate::table::{Key, Table};
use std::collections::VecDeque;
use vstd::prelude::*;

verus! {

/// A remote resolver, and how it is asked.
#[derive(Debug, Clone, Copy, PartialEq, Eq, Structural)]
pub enum DnsKey {
    TcpRemote(SocketAddr),
    UdpRemote(SocketAddr),
}

impl Key for DnsKey {
    fn same(&self, other: &Self) -> (same: bool) {
        *self == *other
    }
}

/// The connections of a resolver, oldest first.
pub open spec fn waiting<C>(clients: Map<DnsKey, VecDeque<C>>, key: DnsKey) -> Seq<C> {
    if clients.dom().contains(key) {
        clients[key]@
    } else {
        Seq::empty()
    }
}

/// Connections that wait to be used again.
pub struct DnsClientCache<C> {
    clients: Table<DnsKey, VecDeque<C>>,
    timeout: u64,
    retry_times: u8,
}

impl<C> DnsClientCache<C> {
    pub closed spec fn wf(&self) -> bool {
        self.clients.wf()
    }

    /// The connections of a resolver, oldest first.
    pub closed spec fn waiting(&self, key: DnsKey) -> Seq<C> {
        waiting(self.clients@, key)
    }

    pub closed spec fn spec_timeout(&self) -> u64 {
        self.timeout
    }

    pub closed spec fn spec_retry_times(&self) -> u8 {
        self.retry_times
    }

    /// No connections. A question is given up after `timeout` nanoseconds, and asked at most
    /// `retry_times` times.
    pub fn new(timeout: u64, retry_times: u8) -> (cache: Self)
        ensures
            cache.wf(),
            cache.spec_timeout() == timeout,
            cache.spec_retry_times() == retry_times,
            forall|key: DnsKey| #[trigger] cache.waiting(key) == Seq::<C>::empty(),
    {
        DnsClientCache { clients: Table::new(), timeout, retry_times }
    }

    pub fn timeout(&self) -> (timeout: u64)
        ensures
            timeout == self.spec_timeout(),
    {
        self.timeout
    }

    /// The tries that a question has.
    pub fn retries(&self) -> (retries: Retries)
        ensures
            retries.left == self.spec_retry_times(),
    {
        Retries { left: self.retry_times }
    }

    /// Keeps a connection that was used.
    pub fn save_dns_client(&mut self, key: DnsKey, client: C)
        requires
            old(self).wf(),
        ensures
            final(self).wf(),
            final(self).spec_timeout() == old(self).spec_timeout(),
            final(self).spec_retry_times() == old(self).spec_retry_times(),
            final(self).waiting(key) == old(self).waiting(key).push(client),
            forall|other: DnsKey|
                other != key ==> #[trigger] final(self).waiting(other) == old(self).waiting(other),
    {
        let mut queue = match self.clients.remove(&key) {
            Some(queue) => queue,
            None => VecDeque::new(),
        };
        queue.push_back(client);
        let _ = self.clients.insert(key, queue);
    }

    /// Takes the oldest connection of a resolver. It may be dead: then the next one is taken.
    pub fn take_client(&mut self, key: DnsKey) -> (client: Option<C>)
        requires
            old(self).wf(),
        ensures
            final(self).wf(),
            final(self).spec_timeout() == old(self).spec_timeout(),
            final(self).spec_retry_times() == old(self).spec_retry_times(),
            client is Some <==> old(self).waiting(key).len() > 0,
            client matches Some(c) ==> {
                &&& c == old(self).waiting(key)[0]
                &&& final(self).waiting(key) == old(self).waiting(key).drop_first()
            },
            client is None ==> final(self).waiting(key) == old(self).waiting(key),
            forall|other: DnsKey|
                other != key ==> #[trigger] final(self).waiting(other) == old(self).waiting(other),
    {
        match self.clients.remove(&key) {
            Some(mut queue) => {
                let client = queue.pop_front();
                proof {
                    if old(self).waiting(key).len() > 0 {
                        assert(queue@ =~= old(self).waiting(key).drop_first());
                    }
                }
                let _ = self.clients.insert(key, queue);
                client
            },
            None => None,
        }
    }
}

/// How often a question may still be asked.
pub struct Retries {
    pub left: u8,
}

impl Retries {
    /// Whether the question may be asked once more. If so that try is used up.
    pub fn next(&mut self) -> (again: bool)
        ensures
            again == (old(self).left > 0),
            final(self).left == (if again {
                (old(self).left - 1) as u8
            } else {
                0
            }),
    {
        if self.left == 0 {
            return false;
        }
        self.left = self.left - 1;
        true
    }
}

/// What happened to a question that is on its way to a resolver. `C` is a connection, `M` an
/// answer and `E` an error.
pub enum LookupEvent<C, M, E> {
    /// It was asked for.
    Begin,
    /// A connection that waited was looked at.
    Checked(C, bool),
    /// A connection was to be made.
    Connected(Result<C, E>),
    /// It was asked by a connection.
    Answered(C, Result<M, E>),
}

/// What to do next.
pub enum LookupStep<C, M, E> {
    /// See whether a connection is still there.
    Check(C),
    /// Make a connection to this resolver.
    Connect(DnsKey),
    /// Ask by this connection.
    Ask(C),
    /// The question is answered.
    Answer(M),
    /// It is not: this was the last error, where there was one.
    Fail(Option<E>),
}

/// One question to a resolver: which connection it goes by, and how often it is asked.
pub struct Lookup {
    key: DnsKey,
    retries: Retries,
}

/// What to do next where a connection is to be found: the oldest that waits is looked at, and
/// where none waits one is made.
pub open spec fn find_step<C, M, E>(waiting: Seq<C>, key: DnsKey) -> LookupStep<C, M, E> {
    if waiting.len() > 0 {
        LookupStep::Check(waiting[0])
    } else {
        LookupStep::Connect(key)
    }
}

/// What to do next where the question can be asked by a connection, with so many tries left: ask
/// while there is one, and else fail with the last error.
pub open spec fn ask_step<C, M, E>(client: C, left: u8, last: Option<E>) -> LookupStep<C, M, E> {
    if left > 0 {
        LookupStep::Ask(client)
    } else {
        LookupStep::Fail(last)
    }
}

/// What to do next after something happened, given the connections that wait for the resolver and
/// how many tries are left.
pub open spec fn lookup_step<C, M, E>(
    event: LookupEvent<C, M, E>,
    waiting: Seq<C>,
    key: DnsKey,
    left: u8,
) -> LookupStep<C, M, E> {
    match event {
        LookupEvent::Begin => find_step(waiting, key),
        LookupEvent::Checked(client, alive) => if alive {
            ask_step(client, left, None)
        } else {
            find_step(waiting, key)
        },
        LookupEvent::Connected(Ok(client)) => ask_step(client, left, None),
        LookupEvent::Connected(Err(e)) => LookupStep::Fail(Some(e)),
        LookupEvent::Answered(_, Ok(answer)) => LookupStep::Answer(answer),
        LookupEvent::Answered(client, Err(e)) => ask_step(client, left, Some(e)),
    }
}

/// The connections that wait for the resolver after something happened: one that is to be looked
/// at is taken from the front, and one that brought an answer waits behind the others.
pub open spec fn lookup_waiting<C, M, E>(
    event: LookupEvent<C, M, E>,
    waiting: Seq<C>,
    key: DnsKey,
    left: u8,
) -> Seq<C> {
    match (event, lookup_step(event, waiting, key, left)) {
        (LookupEvent::Answered(client, Ok(_)), _) => waiting.push(client),
        (_, LookupStep::Check(_)) => waiting.drop_first(),
        _ => waiting,
    }
}

impl Lookup {
    pub closed spec fn key(&self) -> DnsKey {
        self.key
    }

    /// How often the question may still be asked.
    pub closed spec fn left(&self) -> u8 {
        self.retries.left
    }

    /// A question to a resolver, with the tries that the cache gives it.
    pub fn new<C>(key: DnsKey, cache: &DnsClientCache<C>) -> (lookup: Self)
        ensures
            lookup.key() == key,
            lookup.left() == cache.spec_retry_times(),
    {
        Lookup { key, retries: cache.retries() }
    }

    fn find<C, M, E>(&self, cache: &mut DnsClientCache<C>) -> (step: LookupStep<C, M, E>)
        requires
            old(cache).wf(),
        ensures
            step == find_step::<C, M, E>(old(cache).waiting(self.key()), self.key()),
            final(cache).wf(),
            final(cache).spec_timeout() == old(cache).spec_timeout(),
            final(cache).spec_retry_times() == old(cache).spec_retry_times(),
            final(cache).waiting(self.key()) == (if step is Check {
                old(cache).waiting(self.key()).drop_first()
            } else {
                old(cache).waiting(self.key())
            }),
            forall|other: DnsKey|
                other != self.key() ==> #[trigger] final(cache).waiting(other) == old(
                    cache,
                ).waiting(other),
    {
        match cache.take_client(self.key) {
            Some(client) => LookupStep::Check(client),
            None => LookupStep::Connect(self.key),
        }
    }

    fn ask<C, M, E>(&mut self, client: C, last: Option<E>) -> (step: LookupStep<C, M, E>)
        ensures
            step == ask_step::<C, M, E>(client, old(self).left(), last),
            final(self).key() == old(self).key(),
            final(self).left() == (if step is Ask {
                (old(self).left() - 1) as u8
            } else {
                old(self).left()
            }),
    {
        if self.retries.next() {
            LookupStep::Ask(client)
        } else {
            LookupStep::Fail(last)
        }
    }

    /// Decides what to do next after something happened. Asking uses up a try.
    pub fn step<C, M, E>(
        &mut self,
        cache: &mut DnsClientCache<C>,
        event: LookupEvent<C, M, E>,
    ) -> (step: LookupStep<C, M, E>)
        requires
            old(cache).wf(),
        ensures
            ({
                let key = old(self).key();
                let left = old(self).left();
                let waiting = old(cache).waiting(key);
                &&& step == lookup_step(event, waiting, key, left)
                &&& final(cache).waiting(key) == lookup_waiting(event, waiting, key, left)
                &&& final(self).key() == key
                &&& final(self).left() == (if step is Ask {
                    (left - 1) as u8
                } else {
                    left
                })
            }),
            final(cache).wf(),
            final(cache).spec_timeout() == old(cache).spec_timeout(),
            final(cache).spec_retry_times() == old(cache).spec_retry_times(),
            forall|other: DnsKey|
                other != old(self).key() ==> #[trigger] final(cache).waiting(other) == old(
                    cache,
                ).waiting(other),
    {
        match event {
            LookupEvent::Begin => self.find(cache),
            LookupEvent::Checked(client, alive) => if alive {
                self.ask(client, None)
            } else {
                self.find(cache)
            },
            LookupEvent::Connected(Ok(client)) => self.ask(client, None),
            LookupEvent::Connected(Err(e)) => LookupStep::Fail(Some(e)),
            LookupEvent::Answered(client, Ok(answer)) => {
                cache.save_dns_client(self.key, client);
                LookupStep::Answer(answer)
            },
            LookupEvent::Answered(client, Err(e)) => self.ask(client, Some(e)),
        }
    }
}

/// A question is never asked more often than it has tries: asking uses one up, and without one it
/// fails.
pub proof fn law_tries_run_out<C, M, E>(
    event: LookupEvent<C, M, E>,
    waiting: Seq<C>,
    key: DnsKey,
    left: u8,
)
    ensures
        lookup_step(event, waiting, key, left) is Ask ==> left > 0,
        left == 0 ==> (event matches LookupEvent::Answered(_, Err(e)) ==> lookup_step(
            event,
            waiting,
            key,
            left,
        ) == LookupStep::<C, M, E>::Fail(Some(e))),
{
}

/// A connection that brought an answer is the first that is looked at where no other waits, and
/// one that did not is not used again.
pub proof fn law_connections_that_answer_are_kept<C, M, E>(
    client: C,
    reply: Result<M, E>,
    key: DnsKey,
    left: u8,
)
    ensures
        ({
            let none = Seq::<C>::empty();
            let after = lookup_waiting(LookupEvent::Answered(client, reply), none, key, left);
            let next = lookup_step::<C, M, E>(LookupEvent::Begin, after, key, left);
            next == (if reply is Ok {
                LookupStep::<C, M, E>::Check(client)
            } else {
                LookupStep::<C, M, E>::Connect(key)
            })
        }),
{
}

/// A question goes by a connection that is there: one that waits is looked at, the oldest first,
/// and only where none waits is one made. One that is alive, or was just made, is asked by while
/// there are tries, and after an error again by the same one.
pub proof fn law_questions_find_a_connection<C, M, E>(
    waiting: Seq<C>,
    key: DnsKey,
    left: u8,
    client: C,
    error: E,
)
    ensures
        ({
            let begun = lookup_step::<C, M, E>(LookupEvent::Begin, waiting, key, left);
            let dead = lookup_step::<C, M, E>(
                LookupEvent::Checked(client, false),
                waiting,
                key,
                left,
            );
            let alive = lookup_step::<C, M, E>(
                LookupEvent::Checked(client, true),
                waiting,
                key,
                left,
            );
            let made = lookup_step::<C, M, E>(
                LookupEvent::Connected(Ok(client)),
                waiting,
                key,
                left,
            );
            let failed = lookup_step::<C, M, E>(
                LookupEvent::Answered(client, Err(error)),
                waiting,
                key,
                left,
            );
            &&& begun == dead
            &&& waiting.len() > 0 ==> begun == LookupStep::<C, M, E>::Check(waiting[0])
            &&& waiting.len() == 0 ==> begun == LookupStep::<C, M, E>::Connect(key)
            &&& left > 0 ==> alive == LookupStep::<C, M, E>::Ask(client) && made == alive && failed
                == alive
            &&& left == 0 ==> alive == LookupStep::<C, M, E>::Fail(None) && made == alive && failed
                == LookupStep::<C, M, E>::Fail(Some(error))
        }),
{
}

/// An answer ends a question with that answer, and so does a connection that cannot be made, with
/// its error.
pub proof fn law_answers_end_a_question<C, M, E>(
    waiting: Seq<C>,
    key: DnsKey,
    left: u8,
    client: C,
    answer: M,
    error: E,
)
    ensures
        lookup_step::<C, M, E>(LookupEvent::Answered(client, Ok(answer)), waiting, key, left)
            == LookupStep::<C, M, E>::Answer(answer),
        lookup_step::<C, M, E>(LookupEvent::Connected(Err(error)), waiting, key, left)
            == LookupStep::<C, M, E>::Fail(Some(error)),
{
}

/// Connections neither come nor go by themselves: one that is looked at is taken from the front,
/// one that brought an answer waits behind all the others, and nothing else changes who waits.
pub proof fn law_connections_wait_in_line<C, M, E>(
    event: LookupEvent<C, M, E>,
    waiting: Seq<C>,
    key: DnsKey,
    left: u8,
)
    ensures
        ({
            let after = lookup_waiting(event, waiting, key, left);
            match (event, lookup_step(event, waiting, key, left)) {
                (LookupEvent::Answered(client, Ok(_)), _) => after == waiting.push(client),
                (_, LookupStep::Check(client)) => seq![client] + after == waiting,
                _ => after == waiting,
            }
        }),
{
    if let LookupStep::Check(client) = lookup_step(event, waiting, key, left) {
        assert(seq![client] + waiting.drop_first() =~= waiting);
    }
}

} // verus!
