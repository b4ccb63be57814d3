//! Wakeups: what to do around an `eventfd(2)` counter.
//!
//! The ring itself only polls. A consumer that would rather sleep pairs it
//! with an event counter in the kernel: the producer adds a unit after each
//! publish, the consumer drains the counter when the ring looks empty and
//! sleeps in `poll(2)` while there is nothing to drain.
//!
//! ```text
//! producer --try_push--> [ ring ] --try_pop--> consumer
//!     |                                           ^
//!     +-- write(eventfd) --------- read(eventfd) -+
//! ```
//!
//! The system calls belong to whoever owns the descriptor. What is here are
//! the decisions: which call comes next, what its outcome means, when to give
//! up; and the argument that no wakeup is lost. The producer signals *after*
//! it publishes and the consumer checks for messages *before* it sleeps. A
//! signal that lands between check and sleep stays in the counter, and the
//! drain that precedes every sleep finds it: a drain compares nothing, it
//! only asks whether there is a unit.
//!
//! The argument is for a counter that one reader drains. Readers that share a
//! counter do not have it: a drain takes all units, and with them the one that
//! another reader would have woken for. Give each reader a counter of its own.

use vstd::prelude::*;

use crate::error::ShmRingError;
use crate::ring::{RingMemory, SpmcRingBuffer};

verus! {

/// What a failed system call says of itself.
#[derive(Debug, Clone, Copy, PartialEq, Eq, Structural)]
pub enum FailureKind {
    /// The call would have had to block (`EAGAIN`).
    WouldBlock,
    /// A signal handler ran (`EINTR`).
    Interrupted,
    /// Anything else.
    Other,
}

/// A failed system call.
#[derive(Debug)]
pub struct Failure {
    /// What kind of failure.
    pub kind: FailureKind,
    /// The error itself.
    pub error: std::io::Error,
}

/// The result of signalling one unit, from that of the write.
///
/// A full counter is no failure: more wakeups are pending than anyone can
/// wait for, which is all that a signal wants.
pub fn signal_result(write: Result<u64, Failure>) -> (r: Result<(), std::io::Error>)
    ensures
        match r {
            Ok(()) => write matches Err(failure) ==> failure.kind == FailureKind::WouldBlock,
            Err(error) => {
                &&& write matches Err(failure)
                &&& failure.kind != FailureKind::WouldBlock
                &&& error == failure.error
            },
        },
{
    match write {
        Ok(_) => Ok(()),
        Err(failure) => match failure.kind {
            FailureKind::WouldBlock => Ok(()),
            _ => Err(failure.error),
        },
    }
}

/// The result of draining the counter without blocking, from that of the
/// read, which gives the number of units it consumed.
pub fn try_wait_result(read: Result<u64, Failure>) -> (r: Result<Option<u64>, std::io::Error>)
    ensures
        match r {
            Ok(Some(units)) => read == Ok::<u64, Failure>(units),
            Ok(None) => {
                &&& read matches Err(failure)
                &&& failure.kind == FailureKind::WouldBlock
            },
            Err(error) => {
                &&& read matches Err(failure)
                &&& failure.kind != FailureKind::WouldBlock
                &&& error == failure.error
            },
        },
{
    match read {
        Ok(units) => Ok(Some(units)),
        Err(failure) => match failure.kind {
            FailureKind::WouldBlock => Ok(None),
            _ => Err(failure.error),
        },
    }
}

/// What a wait does next.
#[derive(Debug)]
pub enum WaitAction {
    /// Drain the counter.
    Drain,
    /// Sleep until the counter is readable, for at most this many
    /// milliseconds, or without limit if negative.
    Poll {
        /// The limit.
        timeout_ms: i32,
    },
    /// Return this: the units consumed, or `None` after the timeout.
    Return(Result<Option<u64>, std::io::Error>),
}

/// The limit of a sleep of `nanos` nanoseconds as `poll(2)` takes it, in
/// milliseconds: rounded up, so that the sleep is not cut short, and no longer
/// than it can express.
pub open spec fn poll_limit(nanos: int) -> int {
    let ms = (nanos + 999_999) / 1_000_000;
    if ms <= i32::MAX {
        ms
    } else {
        i32::MAX as int
    }
}

/// What a wait that began `elapsed` nanoseconds ago, with a limit of `timeout`
/// or none, does after a drain.
pub open spec fn drain_action(
    timeout: Option<u128>,
    elapsed: u128,
    drained: Result<Option<u64>, std::io::Error>,
) -> WaitAction {
    match drained {
        Ok(Some(units)) => WaitAction::Return(Ok(Some(units))),
        Ok(None) => match timeout {
            None => WaitAction::Poll { timeout_ms: -1i32 },
            Some(limit) => if elapsed >= limit {
                WaitAction::Return(Ok(None))
            } else {
                WaitAction::Poll { timeout_ms: poll_limit(limit - elapsed) as i32 }
            },
        },
        Err(error) => WaitAction::Return(Err(error)),
    }
}

/// What a wait does after a sleep.
pub open spec fn poll_action(polled: Result<u64, Failure>) -> WaitAction {
    match polled {
        Ok(_) => WaitAction::Drain,
        Err(failure) => if failure.kind == FailureKind::Interrupted {
            WaitAction::Drain
        } else {
            WaitAction::Return(Err(failure.error))
        },
    }
}

/// A wait gives up only when its time is up: it returns no units only after a
/// drain that found none, at or past its limit. Without a limit it never
/// does, and no sleep ends it, however it was cut short.
pub proof fn law_wait_gives_up_only_at_its_limit(
    timeout: Option<u128>,
    elapsed: u128,
    drained: Result<Option<u64>, std::io::Error>,
    polled: Result<u64, Failure>,
)
    ensures
        drain_action(timeout, elapsed, drained) == WaitAction::Return(Ok(None)) <==> {
            &&& drained == Ok::<Option<u64>, std::io::Error>(None)
            &&& timeout matches Some(limit)
            &&& limit <= elapsed
        },
        poll_action(polled) != WaitAction::Return(Ok(None)),
{
}

/// Units in the counter are never slept over: whatever the limit, be it zero
/// or long past, a drain that found units ends the wait with all of them.
pub proof fn law_pending_units_end_the_wait(timeout: Option<u128>, elapsed: u128, units: u64)
    ensures
        drain_action(timeout, elapsed, Ok(Some(units))) == WaitAction::Return(Ok(Some(units))),
{
}

/// A wait ends by its limit: a sleep ordered for less than the longest that
/// can be expressed, and slept to its end, leaves no time for another one.
pub proof fn law_full_sleep_reaches_the_limit(limit: u128, elapsed: u128, later: u128)
    requires
        elapsed < limit,
        ({
            let ms = poll_limit(limit - elapsed);
            ms < i32::MAX && later >= elapsed + ms * 1_000_000
        }),
    ensures
        0 < poll_limit(limit - elapsed),
        drain_action(Some(limit), elapsed, Ok(None)) == (WaitAction::Poll {
            timeout_ms: poll_limit(limit - elapsed) as i32,
        }),
        drain_action(Some(limit), later, Ok(None)) == WaitAction::Return(Ok(None)),
{
}

/// The limit of a sleep, as `poll(2)` takes it.
fn poll_timeout_ms(nanos: u128) -> (r: i32)
    ensures
        r == poll_limit(nanos as int),
{
    let whole: u128 = nanos / 1_000_000;
    if whole >= i32::MAX as u128 {
        i32::MAX
    } else if nanos % 1_000_000 == 0 {
        whole as i32
    } else {
        whole as i32 + 1
    }
}

/// A wait begins with a drain: whatever was signalled before is not slept
/// over.
pub fn begin_wait() -> (r: WaitAction)
    ensures
        r == WaitAction::Drain,
{
    WaitAction::Drain
}

/// What a wait does after its drain: return the units; if there were none,
/// sleep for the time that is left, or give up when there is none.
///
/// `timeout` and `elapsed` are nanoseconds, the latter since the wait began.
pub fn after_drain(
    timeout: Option<u128>,
    elapsed: u128,
    drained: Result<Option<u64>, std::io::Error>,
) -> (r: WaitAction)
    ensures
        r == drain_action(timeout, elapsed, drained),
        timeout matches Some(limit) ==> elapsed < limit && drained == Ok::<
            Option<u64>,
            std::io::Error,
        >(None) ==> {
            &&& r matches WaitAction::Poll { timeout_ms }
            &&& 0 <= (timeout_ms - 1) * 1_000_000 < limit - elapsed
        },
{
    match drained {
        Ok(Some(units)) => WaitAction::Return(Ok(Some(units))),
        Ok(None) => match timeout {
            None => WaitAction::Poll { timeout_ms: -1 },
            Some(limit) => if elapsed >= limit {
                WaitAction::Return(Ok(None))
            } else {
                WaitAction::Poll { timeout_ms: poll_timeout_ms(limit - elapsed) }
            },
        },
        Err(error) => WaitAction::Return(Err(error)),
    }
}

/// What a wait does after its sleep, which gives the number of descriptors
/// ready: drain again. Whether the time is up is for the clock to say, not for
/// a sleep that may have been interrupted or too short.
pub fn after_poll(polled: Result<u64, Failure>) -> (r: WaitAction)
    ensures
        r == poll_action(polled),
{
    match polled {
        Ok(_) => WaitAction::Drain,
        Err(failure) => match failure.kind {
            FailureKind::Interrupted => WaitAction::Drain,
            _ => WaitAction::Return(Err(failure.error)),
        },
    }
}

/// The result of a wait without a timeout, from that of one with: the units
/// consumed, at least one.
pub fn wait_result(waited: Result<Option<u64>, std::io::Error>) -> (r: Result<
    u64,
    std::io::Error,
>)
    ensures
        r == match waited {
            Ok(Some(units)) => Ok::<u64, std::io::Error>(units),
            Ok(None) => Ok(1),
            Err(error) => Err(error),
        },
{
    match waited {
        Ok(Some(units)) => Ok(units),
        Ok(None) => Ok(1),
        Err(error) => Err(error),
    }
}

/// What a notified push does after it tried to publish.
#[derive(Debug, Clone, Copy, PartialEq, Eq, Structural)]
pub enum PushAction {
    /// Signal one unit, and judge by [`after_signal`].
    Signal,
    /// Return this, without a signal.
    Return {
        /// Whether the message was published.
        pushed: bool,
    },
}

/// After an attempt to publish: only a published message is signalled.
pub fn after_push(pushed: bool) -> (r: PushAction)
    ensures
        r == if pushed {
            PushAction::Signal
        } else {
            PushAction::Return { pushed: false }
        },
{
    if pushed {
        PushAction::Signal
    } else {
        PushAction::Return { pushed: false }
    }
}

/// The result of a notified push that published its message, from that of the
/// signal. The message stays published even if the signal failed.
pub fn after_signal(signalled: Result<(), std::io::Error>) -> (r: Result<bool, ShmRingError>)
    ensures
        match r {
            Ok(pushed) => pushed && signalled == Ok::<(), std::io::Error>(()),
            Err(ShmRingError::Io(error)) => signalled == Err::<(), std::io::Error>(error),
            Err(_) => false,
        },
{
    match signalled {
        Ok(unit) => {
            assert(unit == ());
            Ok(true)
        },
        Err(error) => Err(ShmRingError::Io(error)),
    }
}

/// What a blocking pop does after it looked at the ring.
#[derive(Debug)]
pub enum PopAction<T> {
    /// Sleep until there is a wakeup, then look again.
    Park,
    /// Sleep for at most this many nanoseconds, then look again.
    ParkFor {
        /// The time that is left.
        nanos: u128,
    },
    /// Return this.
    Return(Result<Option<T>, ShmRingError>),
}

/// After a look at the ring: an empty ring is slept on, anything else is the
/// result.
pub fn after_look<T>(popped: Result<Option<T>, ShmRingError>) -> (r: PopAction<T>)
    ensures
        r == match popped {
            Ok(None) => PopAction::<T>::Park,
            _ => PopAction::Return(popped),
        },
        r != PopAction::Return(Ok::<Option<T>, ShmRingError>(None)),
{
    match popped {
        Ok(None) => PopAction::Park,
        _ => PopAction::Return(popped),
    }
}

/// After a sleep without a limit: look again, unless the sleep failed.
pub fn after_park(woken: Result<u64, std::io::Error>) -> (r: Result<(), ShmRingError>)
    ensures
        match r {
            Ok(()) => woken is Ok,
            Err(ShmRingError::Io(error)) => woken == Err::<u64, std::io::Error>(error),
            Err(_) => false,
        },
{
    match woken {
        Ok(_) => Ok(()),
        Err(error) => Err(ShmRingError::Io(error)),
    }
}

/// After a look at the ring with a deadline: an empty ring is slept on for
/// the time that is left, and given up when there is none.
///
/// Times are nanoseconds since the pop began.
pub fn after_timed_look<T>(
    popped: Result<Option<T>, ShmRingError>,
    timeout: u128,
    elapsed: u128,
) -> (r: PopAction<T>)
    ensures
        r == match popped {
            Ok(None) => if elapsed >= timeout {
                PopAction::Return(Ok::<Option<T>, ShmRingError>(None))
            } else {
                PopAction::<T>::ParkFor { nanos: (timeout - elapsed) as u128 }
            },
            _ => PopAction::Return(popped),
        },
{
    match popped {
        Ok(None) => if elapsed >= timeout {
            PopAction::Return(Ok(None))
        } else {
            PopAction::ParkFor { nanos: timeout - elapsed }
        },
        _ => PopAction::Return(popped),
    }
}

/// After a sleep with a limit: `true` to look again, `false` to give up
/// because the time was slept away.
pub fn after_timed_park(woken: Result<Option<u64>, std::io::Error>) -> (r: Result<
    bool,
    ShmRingError,
>)
    ensures
        match r {
            Ok(again) => woken matches Ok(units) && again == (units is Some),
            Err(ShmRingError::Io(error)) => woken == Err::<Option<u64>, std::io::Error>(error),
            Err(_) => false,
        },
{
    match woken {
        Ok(Some(_)) => Ok(true),
        Ok(None) => Ok(false),
        Err(error) => Err(ShmRingError::Io(error)),
    }
}

impl<T: Copy> SpmcRingBuffer<T> {
    /// Publishes `value` and, if there was room, signals one unit. Under
    /// backpressure nothing is published and nothing is signalled.
    ///
    /// `signal` is given the memory, so the order is part of the contract: it
    /// need only be callable on a memory that holds the published message, and
    /// its result is that of a call on such a memory.
    pub fn push_notified<F: FnOnce(&RingMemory<T>) -> Result<(), std::io::Error>>(
        &mut self,
        mem: &mut RingMemory<T>,
        value: &T,
        signal: F,
    ) -> (r: Result<bool, ShmRingError>)
        requires
            old(self)@.attached(old(mem)@),
            old(mem)@.all_have_cursors(),
            forall|m: &RingMemory<T>|
                old(mem)@.has_room() && m@ == old(mem)@.pushed(*value)
                    ==> #[trigger] signal.requires((m,)),
        ensures
            final(self)@ == old(self)@,
            final(mem)@ == if old(mem)@.has_room() {
                old(mem)@.pushed(*value)
            } else {
                old(mem)@
            },
            match r {
                Ok(true) => {
                    &&& old(mem)@.has_room()
                    &&& exists|m: &RingMemory<T>|
                        {
                            &&& m@ == old(mem)@.pushed(*value)
                            &&& #[trigger] signal.ensures((m,), Ok(()))
                        }
                },
                Ok(false) => !old(mem)@.has_room(),
                Err(ShmRingError::Io(error)) => {
                    &&& old(mem)@.has_room()
                    &&& exists|m: &RingMemory<T>|
                        {
                            &&& m@ == old(mem)@.pushed(*value)
                            &&& #[trigger] signal.ensures((m,), Err(error))
                        }
                },
                Err(_) => false,
            },
    {
        let pushed = self.try_push(mem, value);
        match after_push(pushed) {
            PushAction::Signal => {
                let signalled = signal(mem);
                assert(signal.ensures((&*mem,), signalled));
                after_signal(signalled)
            },
            PushAction::Return { pushed } => Ok(pushed),
        }
    }

    /// One look of a blocking pop: the message or the error that ends it, or
    /// the instruction to sleep and look again. It never ends without a
    /// message.
    pub fn pop_blocking(&mut self, mem: &mut RingMemory<T>, reader_id: usize) -> (r: PopAction<T>)
        requires
            old(self)@.attached(old(mem)@),
            old(mem)@.has_cursor(reader_id as int),
        ensures
            final(self)@ == old(self)@,
            ({
                let s = old(mem)@;
                let id = reader_id as int;
                match r {
                    PopAction::Park => {
                        &&& s.participant(id)
                        &&& old(self)@.loan_depth[id] == 0
                        &&& s.cursor(id) == s.header.write_idx
                        &&& final(mem)@ == s
                    },
                    PopAction::ParkFor { .. } => false,
                    PopAction::Return(Ok(popped)) => {
                        &&& s.participant(id)
                        &&& old(self)@.loan_depth[id] == 0
                        &&& s.cursor(id) != s.header.write_idx
                        &&& popped == Some(s.message(s.cursor(id) as int))
                        &&& final(mem)@ == s.popped(id)
                    },
                    PopAction::Return(Err(ShmRingError::LoanOutstanding { reader_id: blocked })) => {
                        &&& s.participant(id)
                        &&& old(self)@.loan_depth[id] != 0
                        &&& blocked == reader_id
                        &&& final(mem)@ == s
                    },
                    PopAction::Return(Err(err)) => {
                        &&& crate::ring::refused_reader(s, reader_id, err)
                        &&& final(mem)@ == s
                    },
                }
            }),
    {
        after_look(self.try_pop(mem, reader_id))
    }

    /// One look of a blocking pop with a deadline, `elapsed` nanoseconds
    /// after it began: the message or the error that ends it, `Ok(None)` when
    /// the ring is empty and the time is up, else the instruction to sleep
    /// for what is left of it.
    pub fn pop_blocking_timeout(
        &mut self,
        mem: &mut RingMemory<T>,
        reader_id: usize,
        timeout: u128,
        elapsed: u128,
    ) -> (r: PopAction<T>)
        requires
            old(self)@.attached(old(mem)@),
            old(mem)@.has_cursor(reader_id as int),
        ensures
            final(self)@ == old(self)@,
            ({
                let s = old(mem)@;
                let id = reader_id as int;
                let empty = s.participant(id) && old(self)@.loan_depth[id] == 0 && s.cursor(id)
                    == s.header.write_idx;
                match r {
                    PopAction::Park => false,
                    PopAction::ParkFor { nanos } => {
                        &&& empty
                        &&& elapsed < timeout
                        &&& nanos == timeout - elapsed
                        &&& final(mem)@ == s
                    },
                    PopAction::Return(Ok(None)) => {
                        &&& empty
                        &&& timeout <= elapsed
                        &&& final(mem)@ == s
                    },
                    PopAction::Return(Ok(Some(v))) => {
                        &&& s.participant(id)
                        &&& old(self)@.loan_depth[id] == 0
                        &&& s.cursor(id) != s.header.write_idx
                        &&& v == s.message(s.cursor(id) as int)
                        &&& final(mem)@ == s.popped(id)
                    },
                    PopAction::Return(Err(ShmRingError::LoanOutstanding { reader_id: blocked })) => {
                        &&& s.participant(id)
                        &&& old(self)@.loan_depth[id] != 0
                        &&& blocked == reader_id
                        &&& final(mem)@ == s
                    },
                    PopAction::Return(Err(err)) => {
                        &&& crate::ring::refused_reader(s, reader_id, err)
                        &&& final(mem)@ == s
                    },
                }
            }),
    {
        after_timed_look(self.try_pop(mem, reader_id), timeout, elapsed)
    }
}

// ---------------------------------------------------------------------------
// No lost wakeups
// ---------------------------------------------------------------------------

/// The most units that the counter can hold.
pub const COUNTER_MAX: u64 = 0xFFFF_FFFF_FFFF_FFFE;

/// A ring with an event counter for one of its readers, which alone drains it.
pub struct Handshake<T> {
    /// The ring.
    pub mem: crate::ring::RingState<T>,
    /// Messages whose signal has been given.
    pub signalled: u64,
    /// Units in the counter.
    pub units: nat,
    /// Messages the reader is sure to see if it looks: what it saw before, and
    /// what was signalled before it last drained the counter.
    pub known: u64,
    /// The reader looked and found nothing; it is about to drain, or sleeping
    /// because there is nothing to drain.
    pub parked: bool,
}

/// One thing that happens.
pub enum HandshakeEvent<T> {
    /// The producer publishes a message, having signalled the one before.
    Publish {
        /// The message.
        value: T,
    },
    /// The producer signals the message it published.
    Signal,
    /// The reader looks at the ring and sees `seen` messages published,
    /// possibly fewer than there are.
    Look {
        /// What it sees.
        seen: u64,
    },
    /// The reader, parked, drains the counter.
    Drain,
    /// Another reader consumes a message.
    OtherPop {
        /// The other reader.
        reader: int,
    },
}

impl<T> Handshake<T> {
    /// Before the first message.
    pub open spec fn initial(self, r: int) -> bool {
        &&& self.mem.consistent()
        &&& self.mem.participant(r)
        &&& self.mem.header.write_idx == 0
        &&& self.signalled == 0
        &&& self.units == 0
        &&& self.known == 0
        &&& !self.parked
    }

    /// Whether an event can happen, where `r` is the reader with the counter.
    /// A publish needs room, a drain waits for a unit.
    pub open spec fn enabled(self, r: int, event: HandshakeEvent<T>) -> bool {
        let write_idx = self.mem.header.write_idx;
        match event {
            HandshakeEvent::Publish { .. } => {
                &&& self.signalled == write_idx
                &&& self.mem.has_room()
                &&& write_idx < u64::MAX
            },
            HandshakeEvent::Signal => self.signalled < write_idx,
            HandshakeEvent::Look { seen } => !self.parked && self.known <= seen <= write_idx,
            HandshakeEvent::Drain => self.parked && self.units > 0,
            HandshakeEvent::OtherPop { reader } => {
                &&& reader != r
                &&& self.mem.participant(reader)
                &&& self.mem.cursor(reader) != write_idx
            },
        }
    }

    /// The state after an event. A look takes the next message if it sees one,
    /// else the reader parks.
    pub open spec fn after(self, r: int, event: HandshakeEvent<T>) -> Self {
        match event {
            HandshakeEvent::Publish { value } => Handshake { mem: self.mem.pushed(value), ..self },
            HandshakeEvent::Signal => Handshake {
                signalled: self.mem.header.write_idx,
                units: if self.units < COUNTER_MAX {
                    self.units + 1
                } else {
                    self.units
                },
                ..self
            },
            HandshakeEvent::Look { seen } => if seen > self.mem.cursor(r) {
                Handshake { mem: self.mem.popped(r), known: seen, ..self }
            } else {
                Handshake { known: seen, parked: true, ..self }
            },
            HandshakeEvent::Drain => Handshake {
                units: 0,
                known: if self.known < self.signalled {
                    self.signalled
                } else {
                    self.known
                },
                parked: false,
                ..self
            },
            HandshakeEvent::OtherPop { reader } => Handshake {
                mem: self.mem.popped(reader),
                ..self
            },
        }
    }

    /// The reader sleeps: it is parked and there is nothing to drain.
    pub open spec fn asleep(self) -> bool {
        self.parked && self.units == 0
    }

    /// What holds of every reachable state.
    pub open spec fn inv(self, r: int) -> bool {
        let write_idx = self.mem.header.write_idx;
        &&& self.mem.consistent()
        &&& self.mem.participant(r)
        &&& self.mem.cursor(r) <= self.known <= write_idx
        &&& self.signalled <= write_idx <= self.signalled + 1
        &&& self.units == 0 ==> self.signalled <= self.known
        &&& self.parked ==> self.known == self.mem.cursor(r)
    }
}

/// The state after `events` in a row.
pub open spec fn run_handshake<T>(
    s: Handshake<T>,
    r: int,
    events: Seq<HandshakeEvent<T>>,
) -> Handshake<T>
    decreases events.len(),
{
    if events.len() == 0 {
        s
    } else {
        run_handshake(s, r, events.drop_last()).after(r, events.last())
    }
}

/// Each of `events` can happen when its turn comes.
pub open spec fn possible_handshake<T>(
    s: Handshake<T>,
    r: int,
    events: Seq<HandshakeEvent<T>>,
) -> bool
    decreases events.len(),
{
    events.len() > 0 ==> {
        &&& possible_handshake(s, r, events.drop_last())
        &&& run_handshake(s, r, events.drop_last()).enabled(r, events.last())
    }
}

/// Whatever happens, in whatever order, the invariant holds.
proof fn lemma_handshake_inv<T>(s: Handshake<T>, r: int, events: Seq<HandshakeEvent<T>>)
    requires
        s.initial(r),
        possible_handshake(s, r, events),
    ensures
        run_handshake(s, r, events).inv(r),
    decreases events.len(),
{
    if events.len() == 0 {
        assert(s.mem.cursor(r) <= s.mem.header.write_idx);
    } else {
        lemma_handshake_inv(s, r, events.drop_last());
        let t = run_handshake(s, r, events.drop_last());
        match events.last() {
            HandshakeEvent::Publish { value } => {
                crate::ring::law_push(t.mem, value);
            },
            HandshakeEvent::Look { seen } => {
                if seen > t.mem.cursor(r) {
                    crate::ring::law_pop(t.mem, r);
                }
            },
            HandshakeEvent::OtherPop { reader } => {
                crate::ring::law_pop(t.mem, reader);
            },
            _ => {},
        }
    }
}

/// No lost wakeup for a reader with a counter of its own: however looks,
/// drains, publishes and signals interleave, a reader that sleeps has taken
/// every message whose signal has been given. If the producer is between two
/// pushes, its queue is empty.
pub proof fn law_no_lost_wakeup<T>(s: Handshake<T>, r: int, events: Seq<HandshakeEvent<T>>)
    requires
        s.initial(r),
        possible_handshake(s, r, events),
    ensures
        ({
            let t = run_handshake(s, r, events);
            &&& t.asleep() ==> t.mem.cursor(r) >= t.signalled
            &&& t.asleep() && t.signalled == t.mem.header.write_idx ==> t.mem.pending(r).len() == 0
        }),
{
    lemma_handshake_inv(s, r, events);
}

/// No signal before the data: a reader that is woken finds the message it was
/// woken for. After a drain, a look sees every message signalled before the
/// drain, and takes the front of the queue unless all of them are taken
/// already.
pub proof fn law_woken_reader_sees_message<T>(
    s: Handshake<T>,
    r: int,
    events: Seq<HandshakeEvent<T>>,
    seen: u64,
)
    requires
        s.initial(r),
        possible_handshake(s, r, events),
        run_handshake(s, r, events).enabled(r, HandshakeEvent::Drain),
        run_handshake(s, r, events).after(r, HandshakeEvent::Drain).enabled(
            r,
            HandshakeEvent::Look { seen },
        ),
    ensures
        ({
            let t = run_handshake(s, r, events);
            let u = t.after(r, HandshakeEvent::Drain).after(r, HandshakeEvent::Look { seen });
            &&& seen >= t.signalled
            &&& t.mem.cursor(r) < t.signalled ==> {
                &&& !u.parked
                &&& u.mem == t.mem.popped(r)
                &&& u.mem.pending(r) == t.mem.pending(r).drop_first()
            }
        }),
{
    lemma_handshake_inv(s, r, events);
    let t = run_handshake(s, r, events);
    if t.mem.cursor(r) < t.signalled {
        crate::ring::law_pop(t.mem, r);
    }
}

/// A wakeup is good for everything that came with it: a reader takes all the
/// messages that it is sure to see, one look each, before it parks again.
pub proof fn law_drains_without_sleeping<T>(s: Handshake<T>, r: int, seen: u64)
    requires
        s.enabled(r, HandshakeEvent::Look { seen }),
        s.mem.cursor(r) < s.known,
    ensures
        !s.after(r, HandshakeEvent::Look { seen }).parked,
        s.after(r, HandshakeEvent::Look { seen }).mem == s.mem.popped(r),
{
}

} // verus!
