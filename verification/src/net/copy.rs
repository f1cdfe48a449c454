//! Copying between two connections, in both directions at once, until both are over or silent.
//!
//! What is copied is read and written outside. Here is decided what is read, written or flushed
//! next, what was copied, and when a direction is over.

use vstd::prelude::*;

verus! {

/// A buffer on its way from a reader to a writer, as a value.
pub struct CopyModel {
    /// Whether the reader has nothing more.
    pub read_done: bool,
    /// Whether something was written since the last flush.
    pub need_flush: bool,
    /// From here on the buffer is still to be written.
    pub pos: int,
    /// Up to here it was filled.
    pub cap: int,
    /// How many bytes were written.
    pub amt: u64,
    pub buf: Seq<u8>,
    /// Everything that was read so far.
    pub read: Seq<u8>,
    /// Everything that was written so far.
    pub written: Seq<u8>,
}

impl CopyModel {
    /// What was read and not written yet.
    pub open spec fn pending(self) -> Seq<u8> {
        self.buf.subrange(self.pos, self.cap)
    }

    /// What was read is what was written, followed by what is still to be written; and the count
    /// is right.
    pub open spec fn wf(self) -> bool {
        &&& 0 <= self.pos <= self.cap <= self.buf.len()
        &&& self.read == self.written + self.pending()
        &&& self.amt == self.written.len()
    }

    /// Whether everything was read and written.
    pub open spec fn exhausted(self) -> bool {
        self.pos == self.cap && self.read_done
    }

    /// The buffer after its front was filled with `n` bytes. None mean that the reader has
    /// nothing more.
    pub open spec fn filled(self, n: int) -> CopyModel {
        if n == 0 {
            CopyModel { read_done: true, ..self }
        } else {
            CopyModel { pos: 0, cap: n, read: self.read + self.buf.take(n), ..self }
        }
    }

    /// The buffer after the first `n` bytes of what was to be written were.
    pub open spec fn drained(self, n: int) -> CopyModel {
        CopyModel {
            pos: self.pos + n,
            amt: (self.amt + n) as u64,
            need_flush: true,
            written: self.written + self.pending().take(n),
            ..self
        }
    }
}

/// An empty buffer of a size.
pub open spec fn fresh(size: nat) -> CopyModel {
    CopyModel {
        read_done: false,
        need_flush: false,
        pos: 0,
        cap: 0,
        amt: 0,
        buf: Seq::new(size, |i: int| 0u8),
        read: Seq::empty(),
        written: Seq::empty(),
    }
}

/// What has to be done next.
#[derive(Debug, Clone, Copy, PartialEq, Eq, Structural)]
pub enum CopyAction {
    /// Read into the buffer.
    Read,
    /// Write what is in the buffer.
    Write,
    /// Flush the writer; then the copy is complete.
    Finish,
}

/// What has to be done next with a buffer: what was read is written, then more is read, and when
/// there is no more the writer is flushed.
pub open spec fn next_action(copy: CopyModel) -> CopyAction {
    if copy.pos < copy.cap {
        CopyAction::Write
    } else if copy.read_done {
        CopyAction::Finish
    } else {
        CopyAction::Read
    }
}

/// The writer takes nothing.
#[derive(Debug, Clone, Copy, PartialEq, Eq, Structural)]
pub struct WriteZero;

/// A buffer on its way from a reader to a writer.
pub struct CopyBuf {
    read_done: bool,
    need_flush: bool,
    pos: usize,
    cap: usize,
    amt: u64,
    buf: Vec<u8>,
    read: Ghost<Seq<u8>>,
    written: Ghost<Seq<u8>>,
}

impl View for CopyBuf {
    type V = CopyModel;

    closed spec fn view(&self) -> CopyModel {
        CopyModel {
            read_done: self.read_done,
            need_flush: self.need_flush,
            pos: self.pos as int,
            cap: self.cap as int,
            amt: self.amt,
            buf: self.buf@,
            read: self.read@,
            written: self.written@,
        }
    }
}

impl CopyBuf {
    /// An empty buffer of the given size.
    pub fn new(size: usize) -> (copy: Self)
        ensures
            copy@ == fresh(size as nat),
            copy@.wf(),
    {
        let copy = CopyBuf {
            read_done: false,
            need_flush: false,
            pos: 0,
            cap: 0,
            amt: 0,
            buf: vec![0u8; size],
            read: Ghost(Seq::empty()),
            written: Ghost(Seq::empty()),
        };
        proof {
            assert(copy.buf@ =~= Seq::new(size as nat, |i: int| 0u8));
            assert(copy@.read =~= copy@.written + copy@.pending());
        }
        copy
    }

    /// How many bytes were written.
    pub fn amt(&self) -> (amt: u64)
        ensures
            amt == self@.amt,
    {
        self.amt
    }

    /// What has to be done next.
    pub fn next(&self) -> (action: CopyAction)
        requires
            self@.wf(),
        ensures
            action == next_action(self@),
    {
        if self.pos == self.cap && !self.read_done {
            CopyAction::Read
        } else if self.pos < self.cap {
            CopyAction::Write
        } else {
            CopyAction::Finish
        }
    }

    /// The buffer, to read into.
    pub fn buffer(&mut self) -> (buf: &mut [u8])
        requires
            old(self)@.wf(),
            old(self)@.pos == old(self)@.cap,
        ensures
            buf@ == old(self)@.buf,
            final(self)@ == (CopyModel { buf: final(buf)@, ..old(self)@ }),
    {
        self.buf.as_mut_slice()
    }

    /// Takes note that `n` bytes were read into the front of the buffer.
    pub fn on_read(&mut self, n: usize)
        requires
            old(self)@.pos == old(self)@.cap,
            old(self)@.read == old(self)@.written,
            old(self)@.amt == old(self)@.written.len(),
            old(self)@.cap <= old(self)@.buf.len(),
            n <= old(self)@.buf.len(),
        ensures
            final(self)@ == old(self)@.filled(n as int),
            final(self)@.wf(),
            !old(self)@.read_done ==> copy_step(
                old(self)@,
                (CopyEvent::Read { buf: old(self)@.buf, n: n as int }),
            ) == Some(final(self)@),
    {
        let ghost before = self@;
        if n == 0 {
            self.read_done = true;
        } else {
            self.pos = 0;
            self.cap = n;
            proof {
                self.read@ = before.read + before.buf.take(n as int);
            }
        }
        proof {
            if n == 0 {
                assert(self@.written + self@.pending() =~= self@.read);
            } else {
                assert(self@.pending() =~= before.buf.take(n as int));
            }
        }
    }

    /// Whether the writer has to be flushed while there is nothing to read.
    pub fn needs_flush(&self) -> (need: bool)
        ensures
            need == self@.need_flush,
    {
        self.need_flush
    }

    /// Takes note that the writer was flushed: while there was nothing to read, or at the end.
    pub fn flushed(&mut self)
        requires
            old(self)@.wf(),
        ensures
            final(self)@ == (CopyModel { need_flush: false, ..old(self)@ }),
            final(self)@.wf(),
            next_action(old(self)@) is Finish || (next_action(old(self)@) is Read && old(
                self,
            )@.need_flush) ==> copy_step(old(self)@, CopyEvent::Flushed) == Some(final(self)@),
    {
        self.need_flush = false;
        proof {
            assert(self@.pending() =~= old(self)@.pending());
        }
    }

    /// What has to be written.
    pub fn unwritten(&self) -> (data: &[u8])
        requires
            self@.wf(),
        ensures
            data@ == self@.pending(),
    {
        let all = self.buf.as_slice();
        &all[self.pos..self.cap]
    }

    /// Takes note that the writer took `n` bytes. That it takes none is an error.
    pub fn on_write(&mut self, n: usize) -> (res: Result<(), WriteZero>)
        requires
            old(self)@.wf(),
            n <= old(self)@.cap - old(self)@.pos,
            old(self)@.amt + n <= u64::MAX,
        ensures
            final(self)@.wf(),
            res is Err <==> n == 0,
            final(self)@ == (if n == 0 {
                old(self)@
            } else {
                old(self)@.drained(n as int)
            }),
            res is Ok ==> copy_step(old(self)@, CopyEvent::Wrote(n as int)) == Some(final(self)@),
    {
        let ghost before = self@;
        if n == 0 {
            return Err(WriteZero);
        }
        self.pos = self.pos + n;
        self.amt = self.amt + n as u64;
        self.need_flush = true;
        proof {
            self.written@ = before.written + before.pending().take(n as int);
            assert(before.pending() =~= before.pending().take(n as int) + self@.pending());
            assert(self@.read =~= self@.written + self@.pending());
        }
        Ok(())
    }
}

/// How far one direction has come.
pub enum TransferState {
    /// Bytes are being copied.
    Running(CopyBuf),
    /// So many bytes were copied, and the writer is being shut down.
    Shuttingdow(u64),
    /// It is over, and so many bytes were copied.
    Done(u64),
}

/// How far one direction has come, as a value.
pub enum TransferModel {
    Running(CopyModel),
    Shuttingdow(u64),
    Done(u64),
}

impl View for TransferState {
    type V = TransferModel;

    open spec fn view(&self) -> TransferModel {
        match *self {
            TransferState::Running(copy) => TransferModel::Running(copy@),
            TransferState::Shuttingdow(n) => TransferModel::Shuttingdow(n),
            TransferState::Done(n) => TransferModel::Done(n),
        }
    }
}

/// What has to be done next in a direction.
#[derive(Debug, Clone, Copy, PartialEq, Eq, Structural)]
pub enum TransferAction {
    /// Go on with the copy.
    Copy(CopyAction),
    /// Shut the writer down.
    Shutdown,
    /// Nothing: it is over, and so many bytes were copied.
    Done(u64),
}

/// What has to be done next in a direction.
pub open spec fn transfer_action(state: TransferModel) -> TransferAction {
    match state {
        TransferModel::Running(copy) => TransferAction::Copy(next_action(copy)),
        TransferModel::Shuttingdow(_) => TransferAction::Shutdown,
        TransferModel::Done(n) => TransferAction::Done(n),
    }
}

impl TransferState {
    /// What has to be done next. A direction that is over says so as often as it is asked.
    pub fn next(&self) -> (action: TransferAction)
        requires
            self.wf(),
        ensures
            action == transfer_action(self@),
    {
        match self {
            TransferState::Running(copy) => TransferAction::Copy(copy.next()),
            TransferState::Shuttingdow(_) => TransferAction::Shutdown,
            TransferState::Done(n) => TransferAction::Done(*n),
        }
    }

    /// The copy is in order.
    pub open spec fn wf(self) -> bool {
        self matches TransferState::Running(copy) ==> copy@.wf()
    }

    /// The states in the order in which a direction passes through them.
    pub open spec fn rank(self) -> int {
        match self {
            TransferState::Running(_) => 0,
            TransferState::Shuttingdow(_) => 1,
            TransferState::Done(_) => 2,
        }
    }

    /// The name of the state.
    pub fn to_string(&self) -> (name: &'static str)
        ensures
            name@ == (match *self {
                TransferState::Running(_) => "Running"@,
                TransferState::Shuttingdow(_) => "Shuttingdow"@,
                TransferState::Done(_) => "Done"@,
            }),
    {
        match self {
            TransferState::Running(_) => "Running",
            TransferState::Shuttingdow(_) => "Shuttingdow",
            TransferState::Done(_) => "Done",
        }
    }
}

/// What to do where nothing can be copied at the moment.
#[derive(Debug, Clone, Copy, PartialEq, Eq, Structural)]
pub enum Idle {
    /// Something was copied since the last time: wait, without a timer.
    Progress,
    /// Nothing was, for the first time: set a timer.
    StartTimer,
    /// Nothing was, and the timer runs: see whether it has fired.
    CheckTimer,
}

/// What to do where nothing can be copied at the moment, given how many bytes had been copied the
/// last time and are copied now, and whether the timer runs.
pub open spec fn idle_step(before: u64, now: u64, sleeping: bool) -> Idle {
    if before != now {
        Idle::Progress
    } else if sleeping {
        Idle::CheckTimer
    } else {
        Idle::StartTimer
    }
}

/// The timer is looked at only where nothing has passed since it was set: whatever passes stops it,
/// and it is set where nothing has passed and it does not run.
pub proof fn law_only_silence_runs_the_timer(before: u64, now: u64, sleeping: bool)
    ensures
        idle_step(before, now, sleeping) is Progress <==> before != now,
        idle_step(now, now, true) is CheckTimer,
        idle_step(now, now, false) is StartTimer,
{
}

/// One direction, with the time after which it is given up where nothing passes.
pub struct CopyOneDirection {
    pub state: TransferState,
    /// How many bytes had been copied when nothing could be copied the last time.
    pub amt: u64,
    /// Whether the timer runs.
    pub sleeping: bool,
}

impl CopyOneDirection {
    /// A direction in which nothing was copied, with a buffer of the given size.
    pub fn new(size: usize) -> (direction: Self)
        ensures
            direction.state@ == TransferModel::Running(fresh(size as nat)),
            direction.state.wf(),
            direction.amt == 0,
            !direction.sleeping,
    {
        CopyOneDirection {
            state: TransferState::Running(CopyBuf::new(size)),
            amt: 0,
            sleeping: false,
        }
    }

    /// The copy is complete, and the writer was flushed: the writer is to be shut down. Says how
    /// many bytes were copied.
    pub fn on_copied(&mut self)
        requires
            old(self).state matches TransferState::Running(copy) && copy@.wf() && copy@.exhausted()
                && !copy@.need_flush,
        ensures
            Some(final(self).state@) == transfer_step(old(self).state@, TransferEvent::Copied),
            old(self).state matches TransferState::Running(copy) && {
                &&& final(self).state == TransferState::Shuttingdow(copy@.amt)
                &&& copy@.written == copy@.read
                &&& copy@.amt == copy@.read.len()
            },
            final(self).amt == old(self).amt,
            final(self).sleeping == old(self).sleeping,
    {
        if let TransferState::Running(copy) = &self.state {
            proof {
                assert(copy@.written + copy@.pending() =~= copy@.written);
            }
            let amt: u64 = copy.amt();
            self.state = TransferState::Shuttingdow(amt);
        }
    }

    /// Nothing can be copied at the moment.
    pub fn on_idle(&mut self) -> (idle: Idle)
        requires
            old(self).state is Running,
        ensures
            final(self).state == old(self).state,
            old(self).state matches TransferState::Running(copy) && if old(self).amt != copy@.amt {
                &&& idle is Progress
                &&& final(self).amt == copy@.amt
                &&& !final(self).sleeping
            } else {
                &&& idle == (if old(self).sleeping {
                    Idle::CheckTimer
                } else {
                    Idle::StartTimer
                })
                &&& final(self).amt == old(self).amt
                &&& final(self).sleeping
            },
            old(self).state matches TransferState::Running(copy) && idle == idle_step(
                old(self).amt,
                copy@.amt,
                old(self).sleeping,
            ) && final(self).sleeping == !(idle is Progress) && final(self).amt == copy@.amt,
    {
        let copied: u64 = match &self.state {
            TransferState::Running(copy) => copy.amt(),
            _ => self.amt,
        };
        if self.amt == copied {
            if self.sleeping {
                Idle::CheckTimer
            } else {
                self.sleeping = true;
                Idle::StartTimer
            }
        } else {
            self.amt = copied;
            self.sleeping = false;
            Idle::Progress
        }
    }

    /// The timer has fired: the direction is given up, and the writer is to be shut down.
    pub fn on_timeout(&mut self)
        requires
            old(self).sleeping,
            old(self).state matches TransferState::Running(copy) && copy@.amt == old(self).amt,
        ensures
            Some(final(self).state@) == transfer_step(old(self).state@, TransferEvent::TimedOut),
            final(self).state == TransferState::Shuttingdow(old(self).amt),
            final(self).amt == old(self).amt,
            final(self).sleeping == old(self).sleeping,
    {
        self.state = TransferState::Shuttingdow(self.amt);
    }

    /// The writer was shut down.
    pub fn on_shutdown(&mut self)
        requires
            old(self).state is Shuttingdow,
        ensures
            Some(final(self).state@) == transfer_step(old(self).state@, TransferEvent::Shutdown),
            old(self).state matches TransferState::Shuttingdow(n) && final(self).state
                == TransferState::Done(n),
            final(self).amt == old(self).amt,
            final(self).sleeping == old(self).sleeping,
    {
        if let TransferState::Shuttingdow(n) = &self.state {
            let n: u64 = *n;
            self.state = TransferState::Done(n);
        }
    }
}

/// What both directions came to: it is known once both are over.
pub fn both(a_to_b: Option<u64>, b_to_a: Option<u64>) -> (counts: Option<(u64, u64)>)
    ensures
        counts is Some <==> a_to_b is Some && b_to_a is Some,
        counts matches Some((a, b)) ==> a_to_b == Some(a) && b_to_a == Some(b),
{
    match (a_to_b, b_to_a) {
        (Some(a), Some(b)) => Some((a, b)),
        _ => None,
    }
}

/// Whatever is read and written, in whatever pieces, everything that was written is the front of
/// what was read, and the count says how much that is.
pub proof fn law_written_is_a_prefix_of_read(copy: CopyModel)
    requires
        copy.wf(),
    ensures
        copy.written == copy.read.take(copy.amt as int),
        copy.exhausted() ==> copy.written == copy.read,
{
    assert(copy.read.take(copy.amt as int) =~= copy.written);
    if copy.exhausted() {
        assert(copy.read =~= copy.written);
    }
}

/// Writing moves the copy on and keeps everything that was read.
pub proof fn law_writing_makes_progress(copy: CopyModel, n: int)
    requires
        copy.wf(),
        0 < n <= copy.cap - copy.pos,
        copy.amt + n <= u64::MAX,
    ensures
        copy.drained(n).wf(),
        copy.drained(n).read == copy.read,
        copy.drained(n).pending().len() < copy.pending().len(),
{
    let after = copy.drained(n);
    assert(copy.pending() =~= copy.pending().take(n) + after.pending());
    assert(after.read =~= after.written + after.pending());
}

/// Something that happens to a copy, as a value.
pub enum CopyEvent {
    /// The buffer was read into, and holds this now: the reader gave the first `n` bytes, or has
    /// nothing more where that is none.
    Read { buf: Seq<u8>, n: int },
    /// The writer took so many bytes.
    Wrote(int),
    /// The writer was flushed.
    Flushed,
}

/// The copy after something happened to it, where that can happen.
pub open spec fn copy_step(copy: CopyModel, event: CopyEvent) -> Option<CopyModel> {
    match event {
        CopyEvent::Read { buf, n } => if next_action(copy) is Read && buf.len() == copy.buf.len()
            && 0 <= n <= buf.len() {
            Some((CopyModel { buf, ..copy }).filled(n))
        } else {
            None
        },
        CopyEvent::Wrote(n) => if next_action(copy) is Write && 0 < n <= copy.cap - copy.pos
            && copy.amt + n <= u64::MAX {
            Some(copy.drained(n))
        } else {
            None
        },
        CopyEvent::Flushed => if next_action(copy) is Finish || (next_action(copy) is Read
            && copy.need_flush) {
            Some(CopyModel { need_flush: false, ..copy })
        } else {
            None
        },
    }
}

/// A copy with a buffer of a size, after things happened to it one after the other.
pub open spec fn copy_run(size: nat, events: Seq<CopyEvent>) -> Option<CopyModel>
    decreases events.len(),
{
    if events.len() == 0 {
        Some(fresh(size))
    } else {
        match copy_run(size, events.drop_last()) {
            Some(copy) => copy_step(copy, events.last()),
            None => None,
        }
    }
}

/// Everything that the reader gave.
pub open spec fn yielded(events: Seq<CopyEvent>) -> Seq<u8>
    decreases events.len(),
{
    if events.len() == 0 {
        Seq::empty()
    } else {
        let before = yielded(events.drop_last());
        match events.last() {
            CopyEvent::Read { buf, n } => before + buf.take(n),
            _ => before,
        }
    }
}

/// Whether the reader has said that it has nothing more.
pub open spec fn ended(events: Seq<CopyEvent>) -> bool
    decreases events.len(),
{
    events.len() > 0 && (ended(events.drop_last()) || (events.last() matches CopyEvent::Read {
        n,
        ..
    } && n == 0))
}

/// Whether the writer took something since it was flushed.
pub open spec fn unflushed(events: Seq<CopyEvent>) -> bool
    decreases events.len(),
{
    events.len() > 0 && match events.last() {
        CopyEvent::Wrote(_) => true,
        CopyEvent::Flushed => false,
        CopyEvent::Read { .. } => unflushed(events.drop_last()),
    }
}

/// However the reader gives its bytes and the writer takes them, a copy comes to its end exactly
/// once the reader has nothing more and everything was written. Then the writer has taken what the
/// reader gave, in order, nothing lost or repeated, and the count says how much that is. Until
/// then it has taken the front of it. And nothing is left to flush exactly where the writer was
/// flushed after the last byte that it took.
pub proof fn law_copies_are_whole(size: nat, events: Seq<CopyEvent>)
    requires
        copy_run(size, events) is Some,
    ensures
        ({
            let copy = copy_run(size, events).unwrap();
            &&& copy.wf()
            &&& copy.buf.len() == size
            &&& copy.read == yielded(events)
            &&& copy.written == yielded(events).take(copy.amt as int)
            &&& copy.read_done == ended(events)
            &&& copy.need_flush == unflushed(events)
            &&& next_action(copy) is Finish <==> ended(events) && copy.written == yielded(events)
            &&& next_action(copy) is Finish ==> copy.amt == yielded(events).len()
        }),
    decreases events.len(),
{
    let copy = copy_run(size, events).unwrap();
    if events.len() == 0 {
        assert(copy.read =~= copy.written + copy.pending());
    } else {
        let before = copy_run(size, events.drop_last()).unwrap();
        law_copies_are_whole(size, events.drop_last());
        match events.last() {
            CopyEvent::Read { buf, n } => {
                assert(before.written =~= before.read);
                if n == 0 {
                    assert(before.read + buf.take(0) =~= before.read);
                    assert(copy.written + copy.pending() =~= copy.read);
                } else {
                    assert(copy.pending() =~= buf.take(n));
                }
            },
            CopyEvent::Wrote(n) => {
                law_writing_makes_progress(before, n);
            },
            CopyEvent::Flushed => {
                assert(copy.pending() =~= before.pending());
            },
        }
    }
    law_written_is_a_prefix_of_read(copy);
    assert(copy.read.len() == copy.written.len() + copy.pending().len());
}

/// Something that happens to a direction, as a value.
pub enum TransferEvent {
    /// Something happened to its copy.
    Copy(CopyEvent),
    /// The copy is complete.
    Copied,
    /// Nothing passed for too long.
    TimedOut,
    /// The writer was shut down.
    Shutdown,
}

/// The direction after something happened to it, where that can happen.
pub open spec fn transfer_step(state: TransferModel, event: TransferEvent) -> Option<
    TransferModel,
> {
    match (state, event) {
        (TransferModel::Running(copy), TransferEvent::Copy(e)) => match copy_step(copy, e) {
            Some(after) => Some(TransferModel::Running(after)),
            None => None,
        },
        (TransferModel::Running(copy), TransferEvent::Copied) => if copy.exhausted()
            && !copy.need_flush {
            Some(TransferModel::Shuttingdow(copy.amt))
        } else {
            None
        },
        (TransferModel::Running(copy), TransferEvent::TimedOut) => Some(
            TransferModel::Shuttingdow(copy.amt),
        ),
        (TransferModel::Shuttingdow(n), TransferEvent::Shutdown) => Some(TransferModel::Done(n)),
        _ => None,
    }
}

/// A direction with a buffer of a size, after things happened to it one after the other.
pub open spec fn transfer_run(size: nat, events: Seq<TransferEvent>) -> Option<TransferModel>
    decreases events.len(),
{
    if events.len() == 0 {
        Some(TransferModel::Running(fresh(size)))
    } else {
        match transfer_run(size, events.drop_last()) {
            Some(state) => transfer_step(state, events.last()),
            None => None,
        }
    }
}

/// What happened to the copy of a direction.
pub open spec fn copy_events(events: Seq<TransferEvent>) -> Seq<CopyEvent>
    decreases events.len(),
{
    if events.len() == 0 {
        Seq::empty()
    } else {
        let before = copy_events(events.drop_last());
        match events.last() {
            TransferEvent::Copy(e) => before.push(e),
            _ => before,
        }
    }
}

/// How often the writer was shut down.
pub open spec fn shutdowns(events: Seq<TransferEvent>) -> nat
    decreases events.len(),
{
    if events.len() == 0 {
        0
    } else {
        shutdowns(events.drop_last()) + (if events.last() is Shutdown {
            1nat
        } else {
            0
        })
    }
}

/// Whether the direction was given up.
pub open spec fn given_up(events: Seq<TransferEvent>) -> bool
    decreases events.len(),
{
    events.len() > 0 && (given_up(events.drop_last()) || events.last() is TimedOut)
}

/// A direction shuts its writer down once, and when that was done it is over. One that was not
/// given up does so only after everything that the reader gave was written and flushed, and its
/// count says how much that is.
pub proof fn law_directions_end_once(size: nat, events: Seq<TransferEvent>)
    requires
        transfer_run(size, events) is Some,
    ensures
        ({
            let copied = copy_events(events);
            let copy = copy_run(size, copied);
            &&& copy is Some
            &&& match transfer_run(size, events).unwrap() {
                TransferModel::Running(c) => {
                    &&& copy == Some(c)
                    &&& shutdowns(events) == 0
                    &&& !given_up(events)
                },
                TransferModel::Shuttingdow(n) => {
                    &&& shutdowns(events) == 0
                    &&& n == copy.unwrap().amt
                    &&& !given_up(events) ==> copy.unwrap().written == yielded(copied) && n
                        == yielded(copied).len() && ended(copied) && !unflushed(copied)
                },
                TransferModel::Done(n) => {
                    &&& shutdowns(events) == 1
                    &&& n == copy.unwrap().amt
                    &&& !given_up(events) ==> copy.unwrap().written == yielded(copied) && n
                        == yielded(copied).len() && ended(copied) && !unflushed(copied)
                },
            }
        }),
    decreases events.len(),
{
    if events.len() > 0 {
        law_directions_end_once(size, events.drop_last());
        let before = copy_events(events.drop_last());
        match events.last() {
            TransferEvent::Copy(e) => {
                assert(before.push(e).drop_last() =~= before);
            },
            TransferEvent::Copied => {
                law_copies_are_whole(size, before);
            },
            _ => {},
        }
    }
}

/// A direction that is over stays so: it gives its count again whenever it is asked, and nothing
/// is read, written, flushed or shut down any more.
pub proof fn law_a_direction_that_is_over_stays_over(n: u64, event: TransferEvent)
    ensures
        transfer_action(TransferModel::Done(n)) == TransferAction::Done(n),
        transfer_step(TransferModel::Done(n), event) is None,
{
}

/// What was read is written before anything else is read, and nothing is read after the end of the
/// reader: a copy reads exactly where nothing is left to write and more may come, and is complete
/// exactly where nothing is left to write and nothing comes.
pub proof fn law_copies_write_before_they_read(copy: CopyModel)
    requires
        copy.wf(),
    ensures
        next_action(copy) is Write <==> copy.pending().len() > 0,
        next_action(copy) is Read <==> copy.pending().len() == 0 && !copy.read_done,
        next_action(copy) is Finish <==> copy.pending().len() == 0 && copy.read_done,
{
}

/// Bytes that are read are those that are to be written next, all of them and in order; and none
/// mean that no more come.
pub proof fn law_read_bytes_are_written_next(copy: CopyModel, n: int)
    requires
        copy.wf(),
        copy.pending().len() == 0,
        0 <= n <= copy.buf.len(),
    ensures
        copy.filled(n).wf(),
        n > 0 ==> copy.filled(n).pending() == copy.buf.take(n) && copy.filled(n).read == copy.read
            + copy.buf.take(n) && copy.filled(n).read_done == copy.read_done,
        n == 0 ==> copy.filled(n).read_done && copy.filled(n).read == copy.read,
        copy.filled(n).written == copy.written,
        copy.filled(n).amt == copy.amt,
        copy.filled(n).need_flush == copy.need_flush,
{
    let after = copy.filled(n);
    assert(copy.written + copy.pending() =~= copy.written);
    if n > 0 {
        assert(after.pending() =~= copy.buf.take(n));
    } else {
        assert(after.written + after.pending() =~= after.read);
    }
}

/// Bytes that are written are the front of those that were to be, and are counted and to be
/// flushed; the others are still to be written.
pub proof fn law_written_bytes_leave_the_front(copy: CopyModel, n: int)
    requires
        copy.wf(),
        0 < n <= copy.pending().len(),
        copy.amt + n <= u64::MAX,
    ensures
        copy.drained(n).wf(),
        copy.drained(n).written == copy.written + copy.pending().take(n),
        copy.drained(n).pending() == copy.pending().skip(n),
        copy.drained(n).amt == copy.amt + n,
        copy.drained(n).need_flush,
        copy.drained(n).read == copy.read,
        copy.drained(n).read_done == copy.read_done,
{
    law_writing_makes_progress(copy, n);
    assert(copy.drained(n).pending() =~= copy.pending().skip(n));
}

/// A direction copies, then shuts its writer down, then is over: what is to be done says which.
pub proof fn law_directions_say_what_to_do(state: TransferModel)
    ensures
        match transfer_action(state) {
            TransferAction::Copy(action) => state matches TransferModel::Running(copy) && action
                == next_action(copy),
            TransferAction::Shutdown => state is Shuttingdow,
            TransferAction::Done(n) => state == TransferModel::Done(n),
        },
{
}

} // verus!
