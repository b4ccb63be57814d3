//! Model of the ring in use: a small ring in memory, and four scenarios run
//! under an arbitrary schedule.
//!
//! [`LoomRing`] is the ring reduced to what the protocol is about: two slots,
//! `u64` messages, no file. The scenarios run producers and consumers over a
//! [`Simulator`], one memory access per [`Tick`], in the order and with the
//! staleness that the schedule says; when the schedule is used up, every
//! thread runs to its end. What each scenario promises holds for every
//! schedule.
//!
//! Capacity and message counts are tiny, so that short schedules reach every
//! corner; attempts are bounded, because giving up under backpressure is a
//! legal outcome and liveness is not what the scenarios are about.

use vstd::prelude::*;

use crate::header::MAX_READERS;
use crate::interleaving::{Event, Producer, System, Task};
use crate::loan::Loan;
use crate::protocol::{ClaimStage, PopStage, PushStage, ResolveMode, ResolveStage};
use crate::ring::{RingMemory, SpmcRingBuffer};
use crate::scenario::{
    Borrower, Borrowing, Reader, Scenario, Sleeper, Sleeping, Stage, Thread, Tick, Writer,
};
use crate::simulator::Simulator;

verus! {

/// Slots of the modelled ring.
pub const LOOM_CAPACITY: usize = 2;

/// Attempts a scenario's thread makes before it gives up.
pub const ATTEMPTS: usize = 3;

/// A `u64` fits a slot.
proof fn lemma_u64_layout()
    ensures
        vstd::layout::size_of::<u64>() == 8,
        vstd::layout::align_of::<u64>() <= 64,
{
    broadcast use {
        vstd::layout::layout_of_primitives,
        vstd::layout::align_properties,
        vstd::layout::align_nonzero,
    };

    let align = vstd::layout::align_of::<u64>();
    assert(vstd::layout::size_of::<u64>() == 8);
    assert(8nat % align == 0);
    if align > 8 {
        vstd::arithmetic::div_mod::lemma_small_mod(8, align);
    }
}

/// Two is a power of two.
proof fn lemma_capacity()
    ensures
        vstd::arithmetic::power2::is_pow2(LOOM_CAPACITY as int),
{
    reveal_with_fuel(vstd::arithmetic::power2::is_pow2, 3);
}

/// A ring of two slots in memory, with a handle on it.
pub struct LoomRing {
    /// The handle.
    pub ring: SpmcRingBuffer<u64>,
    /// The memory.
    pub mem: RingMemory<u64>,
}

impl LoomRing {
    /// The handle belongs to the memory, and the protocol has been kept.
    pub open spec fn wf(self) -> bool {
        &&& self.ring@.attached(self.mem@)
        &&& self.mem@.consistent()
        &&& self.mem@.capacity() == LOOM_CAPACITY
    }

    /// A fresh ring with all cursors participating.
    pub fn new() -> (r: Self)
        ensures
            r.wf(),
            r.ring@ == crate::ring::HandleState::fresh(LOOM_CAPACITY as int, Seq::empty()),
            r.mem@.header == crate::header::HeaderState::fresh(1, MAX_READERS as nat),
            r.mem@.slots == Seq::new(LOOM_CAPACITY as nat, |i: int| 0u64),
    {
        Self::with_readers(MAX_READERS)
    }

    /// A fresh ring in which only the first `num_readers` cursors gate the
    /// producer.
    pub fn with_readers(num_readers: usize) -> (r: Self)
        requires
            1 <= num_readers <= MAX_READERS,
        ensures
            r.wf(),
            r.ring@ == crate::ring::HandleState::fresh(LOOM_CAPACITY as int, Seq::empty()),
            r.mem@.header == crate::header::HeaderState::fresh(1, num_readers as nat),
            r.mem@.slots == Seq::new(LOOM_CAPACITY as nat, |i: int| 0u64),
    {
        proof {
            lemma_u64_layout();
            lemma_capacity();
        }
        let (ring, mem) = SpmcRingBuffer::create_new_with_readers(
            String::new(),
            false,
            LOOM_CAPACITY,
            num_readers,
            0,
        ).unwrap();
        LoomRing { ring, mem }
    }

    /// Publishes `value` unless the slowest participant is a capacity behind.
    pub fn try_push(&mut self, value: u64) -> (pushed: bool)
        requires
            old(self).wf(),
        ensures
            final(self).ring@ == old(self).ring@,
            pushed == old(self).mem@.has_room(),
            final(self).mem@ == if pushed {
                old(self).mem@.pushed(value)
            } else {
                old(self).mem@
            },
            old(self).mem@.header.write_idx < u64::MAX ==> final(self).wf(),
    {
        self.ring.try_push(&mut self.mem, &value)
    }

    /// Consumes one message as `reader_id`; `None` when there is none, or
    /// while the reader has an open loan.
    pub fn try_pop(&mut self, reader_id: usize) -> (r: Option<u64>)
        requires
            old(self).wf(),
            old(self).mem@.participant(reader_id as int),
        ensures
            final(self).wf(),
            final(self).ring@ == old(self).ring@,
            ({
                let s = old(self).mem@;
                let id = reader_id as int;
                let takes = old(self).ring@.loan_depth[id] == 0 && s.pending(id).len() > 0;
                &&& r == if takes {
                    Some(s.pending(id)[0])
                } else {
                    None
                }
                &&& final(self).mem@ == if takes {
                    s.popped(id)
                } else {
                    s
                }
            }),
    {
        assert(self.mem@.cursor(reader_id as int) <= self.mem@.header.write_idx);
        match self.ring.try_pop(&mut self.mem, reader_id) {
            Ok(popped) => popped,
            Err(_) => None,
        }
    }

    /// Total successful pushes.
    pub fn total_written(&self) -> (r: u64)
        ensures
            r == self.mem@.header.total_written,
    {
        self.ring.total_written(&self.mem)
    }

    /// Reserves the next message of `reader_id` as a loan, if there is one.
    pub fn claim(&mut self, reader_id: usize) -> (r: Option<LoomLoan>)
        requires
            old(self).wf(),
            old(self).mem@.participant(reader_id as int),
        ensures
            final(self).wf(),
            final(self).mem@ == old(self).mem@,
            ({
                let id = reader_id as int;
                let idx = crate::loan::claim_index(old(self).ring@, old(self).mem@, id);
                match r {
                    Some(loan) => {
                        &&& idx < old(self).mem@.header.write_idx
                        &&& loan@ == (crate::loan::LoanState {
                            reader_id: id,
                            index: idx,
                            resolved: false,
                        })
                        &&& final(self).ring@ == crate::loan::claimed(old(self).ring@, id, idx)
                        &&& crate::loan::pinned(final(self).mem@, id, idx as int)
                    },
                    None => {
                        &&& idx >= old(self).mem@.header.write_idx
                        &&& final(self).ring@ == old(self).ring@
                    },
                }
            }),
    {
        match self.ring.claim(&self.mem, reader_id) {
            Ok(Some(loan)) => Some(LoomLoan { loan }),
            _ => None,
        }
    }
}

impl Default for LoomRing {
    fn default() -> (r: Self)
        ensures
            r.wf(),
            r.ring@ == crate::ring::HandleState::fresh(LOOM_CAPACITY as int, Seq::empty()),
            r.mem@.header == crate::header::HeaderState::fresh(1, MAX_READERS as nat),
            r.mem@.slots == Seq::new(LOOM_CAPACITY as nat, |i: int| 0u64),
    {
        Self::new()
    }
}

/// A loan of a [`LoomRing`].
pub struct LoomLoan {
    loan: Loan,
}

impl View for LoomLoan {
    type V = crate::loan::LoanState;

    closed spec fn view(&self) -> crate::loan::LoanState {
        self.loan@
    }
}

impl LoomLoan {
    /// The message in the loaned slot.
    pub fn value(&self, ring: &LoomRing) -> (r: u64)
        requires
            ring.wf(),
        ensures
            r == ring.mem@.message(self@.index as int),
            crate::loan::pinned(ring.mem@, self@.reader_id, self@.index as int) ==> r
                == ring.mem@.pending(self@.reader_id)[self@.index - ring.mem@.cursor(
                self@.reader_id,
            )],
    {
        *self.loan.value(&ring.mem)
    }

    /// The stream index this loan views.
    pub fn index(&self) -> (r: u64)
        ensures
            r == self@.index,
    {
        self.loan.index()
    }

    /// Commits in order; `false`, with nothing changed, when the loan is not
    /// at the cursor. Committing a resolved loan does nothing.
    pub fn commit(&mut self, ring: &mut LoomRing) -> (r: bool)
        ensures
            ({
                let id = old(self)@.reader_id;
                let s = old(ring).mem@;
                let consumes = !old(self)@.resolved && s.cursor(id) == old(self)@.index;
                &&& r == (old(self)@.resolved || consumes)
                &&& final(self)@ == if consumes {
                    (crate::loan::LoanState { resolved: true, ..old(self)@ })
                } else {
                    old(self)@
                }
                &&& final(ring).ring@ == if consumes {
                    crate::loan::released(old(ring).ring@, id)
                } else {
                    old(ring).ring@
                }
                &&& final(ring).mem@ == if consumes {
                    s.popped(id)
                } else {
                    s
                }
                &&& old(ring).wf() && crate::loan::pinned(s, id, old(self)@.index as int)
                    ==> final(ring).wf()
            }),
    {
        let r = match self.loan.commit(&mut ring.ring, &mut ring.mem) {
            Ok(()) => true,
            Err(_) => false,
        };
        proof {
            let s = old(ring).mem@;
            let id = old(self)@.reader_id;
            if old(ring).wf() && crate::loan::pinned(s, id, old(self)@.index as int)
                && s.cursor(id) == old(self)@.index {
                crate::ring::law_pop(s, id);
            }
        }
        r
    }

    /// Releases the claim without consuming.
    pub fn abort(self, ring: &mut LoomRing)
        ensures
            final(ring).mem@ == old(ring).mem@,
            final(ring).ring@ == if self@.resolved {
                old(ring).ring@
            } else {
                crate::loan::rewound(old(ring).ring@, self@.reader_id, self@.index)
            },
            old(ring).wf() ==> final(ring).wf(),
    {
        self.loan.abort(&mut ring.ring)
    }

    /// Gives the loan up: consumed at the cursor, just released off it.
    pub fn drop(self, ring: &mut LoomRing)
        ensures
            final(ring).ring@ == if self@.resolved {
                old(ring).ring@
            } else {
                crate::loan::released(old(ring).ring@, self@.reader_id)
            },
            final(ring).mem@ == if !self@.resolved && old(ring).mem@.cursor(self@.reader_id)
                == self@.index {
                old(ring).mem@.popped(self@.reader_id)
            } else {
                old(ring).mem@
            },
    {
        self.loan.drop(&mut ring.ring, &mut ring.mem)
    }
}

// ---------------------------------------------------------------------------
// Scenarios
// ---------------------------------------------------------------------------

/// The messages 1, 2, ... up to `n`.
pub open spec fn first_messages(n: nat) -> Seq<u64> {
    Seq::new(n, |i: int| (i + 1) as u64)
}

/// The producer publishes 1, 2, ... in order and counts them, and is refused
/// only if a capacity has been published.
spec fn counting(s: System<u64>) -> bool {
    let published = s.stream.len();
    &&& s.mem.capacity() == LOOM_CAPACITY
    &&& published <= 1000
    &&& s.stream == first_messages(published)
    &&& match s.producer {
        Producer::Idle => s.mem.header.total_written == published,
        Producer::Pushing { value, stage } => match stage {
            PushStage::Count => value == published && s.mem.header.total_written + 1 == published,
            PushStage::Done { pushed: true } => value == published && s.mem.header.total_written
                == published,
            PushStage::Done { pushed: false } => {
                &&& value == published + 1
                &&& s.mem.header.total_written == published
                &&& published >= LOOM_CAPACITY
            },
            _ => value == published + 1 && s.mem.header.total_written == published,
        },
    }
}

/// An access of the producer keeps the count.
proof fn lemma_producer_counts(s: System<u64>, answer: u64)
    requires
        s.inv(),
        counting(s),
        s.stream.len() < 1000,
        s.enabled(Event::ProducerStep { answer }),
    ensures
        counting(s.after(Event::ProducerStep { answer })),
{
    let t = s.after(Event::ProducerStep { answer });
    assert(s.mem.participant(0));
    match s.producer {
        Producer::Idle => {},
        Producer::Pushing { value, stage } => match stage {
            PushStage::Scan { next, .. } => {
                assert(s.mem.participant(next as int));
                assert(s.mem.cursor(next as int) <= s.mem.header.write_idx);
            },
            PushStage::Publish { .. } => {
                assert(t.stream =~= first_messages(t.stream.len()));
            },
            _ => {},
        },
    }
}

/// What holds of a writer.
spec fn writer_inv(w: Writer, s: System<u64>) -> bool {
    &&& s.inv()
    &&& counting(s)
    &&& w.limit < 1000
    &&& 1 <= w.attempts
    &&& w.left <= w.attempts
    &&& w.pushed == s.mem.header.total_written
    &&& w.pushed <= w.limit
    &&& !s.producer.resting() ==> w.pushed < w.limit
    &&& s.producer.resting() && w.left < w.attempts ==> w.pushed >= LOOM_CAPACITY
}

/// From `s` to `t` only the producer did anything.
spec fn producer_only(s: System<u64>, t: System<u64>) -> bool {
    &&& t.consumers == s.consumers
    &&& t.mem.header.read_indices == s.mem.header.read_indices
    &&& t.mem.header.num_readers == s.mem.header.num_readers
    &&& s.stream.len() <= t.stream.len()
}

/// From `s` to `t` only consumer `r` did anything.
spec fn consumer_only(s: System<u64>, t: System<u64>, r: int) -> bool {
    &&& t.producer == s.producer
    &&& t.stream == s.stream
    &&& t.mem.capacity() == s.mem.capacity()
    &&& t.mem.header.num_readers == s.mem.header.num_readers
    &&& t.mem.header.total_written == s.mem.header.total_written
    &&& t.consumers.len() == s.consumers.len()
    &&& forall|q: int|
        0 <= q < s.consumers.len() && q != r ==> #[trigger] t.consumers[q] == s.consumers[q]
    &&& forall|q: int|
        0 <= q < s.consumers.len() && q != r ==> #[trigger] t.mem.cursor(q) == s.mem.cursor(q)
}

/// A writer's turn.
proof fn lemma_writer_turn(w: Writer, s: System<u64>, notify: u64, behind: u64)
    requires
        writer_inv(w, s),
        !w.done(s),
    ensures
        w.ready(s),
        writer_inv(w.turned(s, notify, behind).0, w.turned(s, notify, behind).1),
        producer_only(s, w.turned(s, notify, behind).1),
        w.turned(s, notify, behind).0.limit == w.limit,
        w.turned(s, notify, behind).0.attempts == w.attempts,
{
    let (x, t, _) = w.turned(s, notify, behind);
    assert(s.mem.participant(0));
    if !s.producer.resting() {
        let answer = crate::simulator::producer_answer(s, behind);
        crate::interleaving::lemma_event_keeps_inv(s, Event::ProducerStep { answer });
        lemma_producer_counts(s, answer);
    } else if w.left > 0 && w.pushed < w.limit {
        let event = Event::StartPush { value: crate::ring::succ(w.pushed) };
        crate::interleaving::lemma_event_keeps_inv(s, event);
    }
}

/// A writer is undisturbed by a consumer.
proof fn lemma_writer_undisturbed(w: Writer, s: System<u64>, t: System<u64>, r: int)
    requires
        writer_inv(w, s),
        consumer_only(s, t, r),
        t.inv(),
    ensures
        writer_inv(w, t),
{
}

/// Pops that a reader has made, is making, or may yet make.
spec fn budget(rd: Reader, s: System<u64>) -> int {
    rd.seen + rd.left + if s.consumers[rd.id as int].task.resting() {
        0int
    } else {
        1
    }
}

/// What holds of a reader: it has seen what its consumer has taken.
spec fn reader_inv(rd: Reader, s: System<u64>) -> bool {
    let c = s.consumers[rd.id as int];
    &&& s.inv()
    &&& counting(s)
    &&& rd.id < s.consumers.len()
    &&& rd.seen == c.taken.len()
    &&& rd.in_order
    &&& c.open.len() == 0
    &&& c.task is Idle || c.task is Pop
}

/// A reader's turn.
proof fn lemma_reader_turn(rd: Reader, s: System<u64>, behind: u64)
    requires
        reader_inv(rd, s),
        !rd.done(s),
    ensures
        rd.ready(s),
        reader_inv(rd.turned(s, behind).0, rd.turned(s, behind).1),
        consumer_only(s, rd.turned(s, behind).1, rd.id as int),
        rd.turned(s, behind).0.id == rd.id,
        budget(rd.turned(s, behind).0, rd.turned(s, behind).1) <= budget(rd, s),
{
    let id = rd.id as int;
    let (x, t) = rd.turned(s, behind);
    assert(s.mem.participant(id));
    assert(s.consumer_inv(id));
    assert(s.mem.cursor(id) <= s.mem.header.write_idx);
    if s.consumers[id].task.resting() {
        crate::interleaving::lemma_event_keeps_inv(s, Event::StartPop { r: id });
    } else {
        let answer = crate::simulator::consumer_answer(s, id, behind);
        crate::interleaving::lemma_event_keeps_inv(s, Event::ConsumerStep { r: id, answer });
    }
    assert(t.mem.participant(id));
    assert(t.consumer_inv(id));
}

/// The parties of a fresh ring of two slots.
proof fn lemma_fresh(num_readers: nat)
    requires
        1 <= num_readers <= MAX_READERS,
    ensures
        ({
            let s = crate::simulator::fresh_system(LOOM_CAPACITY as int, num_readers, 0u64);
            &&& s.inv()
            &&& counting(s)
            &&& s.consumers.len() == num_readers
            &&& s.mem.header.total_written == 0
            &&& forall|r: int| 0 <= r < num_readers ==> #[trigger] s.mem.cursor(r) == 0
        }),
{
    let s = crate::simulator::fresh_system(LOOM_CAPACITY as int, num_readers, 0u64);
    lemma_capacity();
    crate::interleaving::lemma_initial_inv(s);
    assert(s.stream =~= first_messages(0));
}

/// A stage with a fresh ring for `num_readers` consumers.
fn stage(num_readers: usize, threads: Vec<Thread>) -> (r: Stage)
    requires
        1 <= num_readers <= MAX_READERS,
    ensures
        r.wf(),
        r@ == (Scenario {
            system: crate::simulator::fresh_system(
                LOOM_CAPACITY as int,
                num_readers as nat,
                0u64,
            ),
            notify: 0,
            threads: threads@,
        }),
{
    proof {
        lemma_u64_layout();
        lemma_capacity();
    }
    Stage::new(Simulator::new(LOOM_CAPACITY, num_readers, 0).unwrap(), threads)
}

// ---------------------------------------------------------------------------
// Fan-out
// ---------------------------------------------------------------------------

/// A writer of 1, 2, ... up to `limit`, before it starts.
pub open spec fn new_writer(limit: u64, attempts: usize, notifies: bool) -> Writer {
    Writer { limit, attempts, left: attempts, pushed: 0, notifies }
}

/// A reader before it starts.
pub open spec fn new_reader(id: usize, left: usize) -> Reader {
    Reader { id, left, seen: 0, in_order: true }
}

/// One producer of three messages, two consumers, two slots.
pub open spec fn fanout_start() -> Scenario {
    Scenario {
        system: crate::simulator::fresh_system(LOOM_CAPACITY as int, 2, 0u64),
        notify: 0,
        threads: seq![
            Thread::Writer(new_writer(3, ATTEMPTS, false)),
            Thread::Reader(new_reader(0, ATTEMPTS)),
            Thread::Reader(new_reader(1, ATTEMPTS)),
        ],
    }
}

/// What holds of the fan-out at all times.
spec fn fanout_inv(f: Scenario) -> bool {
    &&& f.system.consumers.len() == 2
    &&& f.threads.len() == 3
    &&& f.threads[0] matches Thread::Writer(w) && {
        &&& writer_inv(w, f.system)
        &&& w.limit == 3
        &&& w.attempts == ATTEMPTS
        &&& !w.notifies
    }
    &&& f.threads[1] matches Thread::Reader(rd) && {
        &&& reader_inv(rd, f.system)
        &&& rd.id == 0
        &&& budget(rd, f.system) <= ATTEMPTS
    }
    &&& f.threads[2] matches Thread::Reader(rd) && {
        &&& reader_inv(rd, f.system)
        &&& rd.id == 1
        &&& budget(rd, f.system) <= ATTEMPTS
    }
}

/// A tick keeps it.
proof fn lemma_fanout_tick(f: Scenario, tick: Tick)
    requires
        fanout_inv(f),
    ensures
        fanout_inv(f.turned(tick)),
        f.ready(),
{
    reveal(Thread::turned);
    let k = tick.who as int % 3;
    assert forall|j: int| 0 <= j < 3 implies {
        let t = #[trigger] f.threads[j];
        !t.done(f.system) ==> t.ready(f.system)
    } by {
        match f.threads[j] {
            Thread::Writer(w) => {
                if !w.done(f.system) {
                    lemma_writer_turn(w, f.system, f.notify, tick.behind);
                }
            },
            _ => {},
        }
    }
    if !f.threads[k].done(f.system) {
        match f.threads[k] {
            Thread::Writer(w) => {
                lemma_writer_turn(w, f.system, f.notify, tick.behind);
            },
            Thread::Reader(rd) => {
                lemma_reader_turn(rd, f.system, tick.behind);
            },
            _ => {},
        }
    }
}

/// Whatever the schedule, it holds.
proof fn lemma_fanout(ticks: Seq<Tick>)
    ensures
        fanout_inv(crate::scenario::run(fanout_start(), ticks)),
        crate::scenario::run(fanout_start(), ticks).ready(),
    decreases ticks.len(),
{
    if ticks.len() == 0 {
        lemma_fresh(2);
        assert(fanout_inv(fanout_start()));
    } else {
        lemma_fanout(ticks.drop_last());
        lemma_fanout_tick(crate::scenario::run(fanout_start(), ticks.drop_last()), ticks.last());
    }
    lemma_fanout_tick(crate::scenario::run(fanout_start(), ticks), Tick { who: 0, behind: 0 });
}

/// What [`model_fanout_two_readers`] came to.
#[derive(Debug)]
pub struct Fanout {
    /// Messages the first reader got.
    pub first: u64,
    /// Messages the second reader got.
    pub second: u64,
    /// Whether both got 1, 2, ... in order.
    pub in_order: bool,
    /// Messages pushed, as the producer counted.
    pub pushed: u64,
    /// Messages pushed, as the ring counted.
    pub total_written: u64,
}

impl Fanout {
    /// What a fan-out that ended like this came to.
    pub open spec fn of(end: Scenario) -> Self {
        match (end.threads[0], end.threads[1], end.threads[2]) {
            (Thread::Writer(w), Thread::Reader(first), Thread::Reader(second)) => Fanout {
                first: first.seen,
                second: second.seen,
                in_order: first.in_order && second.in_order,
                pushed: w.pushed,
                total_written: end.system.mem.header.total_written,
            },
            _ => arbitrary(),
        }
    }
}

/// Fan-out: one producer of three messages, two consumers, two slots.
///
/// Whatever the schedule, each reader observes the one stream 1, 2, 3, ... in
/// order, with no gaps, duplicates or stale values: the producer never
/// overwrote a slot before the slowest reader was past it. The producer is at
/// most two ahead of either.
pub fn model_fanout_two_readers(schedule: &Vec<Tick>) -> (r: Fanout)
    ensures
        exists|counts: Seq<nat>|
            {
                let end = #[trigger] crate::scenario::run(
                    fanout_start(),
                    schedule@ + crate::scenario::closing(counts),
                );
                counts.len() == 3 && end.settled() && r == Fanout::of(end)
            },
        r.in_order,
        r.first <= ATTEMPTS,
        r.second <= ATTEMPTS,
        r.first <= r.total_written <= r.first + LOOM_CAPACITY,
        r.second <= r.total_written <= r.second + LOOM_CAPACITY,
        r.total_written == r.pushed,
        LOOM_CAPACITY <= r.total_written <= 3,
{
    let mut threads: Vec<Thread> = Vec::new();
    threads.push(
        Thread::Writer(
            Writer { limit: 3, attempts: ATTEMPTS, left: ATTEMPTS, pushed: 0, notifies: false },
        ),
    );
    threads.push(Thread::Reader(Reader { id: 0, left: ATTEMPTS, seen: 0, in_order: true }));
    threads.push(Thread::Reader(Reader { id: 1, left: ATTEMPTS, seen: 0, in_order: true }));
    let mut stage = stage(2, threads);
    proof {
        assert(stage@.threads =~= fanout_start().threads);
        assert forall|ticks: Seq<Tick>|
            (#[trigger] crate::scenario::run(fanout_start(), ticks)).ready() by {
            lemma_fanout(ticks);
        }
    }
    let counts = stage.play(schedule);
    proof {
        let ticks = schedule@ + crate::scenario::closing(counts@);
        lemma_fanout(ticks);
        let end = crate::scenario::run(fanout_start(), ticks);
        assert(end == stage@);
        crate::interleaving::lemma_inv_is_safe(end.system);
        assert(end.system.safe_for(0));
        assert(end.system.safe_for(1));
        assert(end.threads[0].done(end.system));
    }
    match (stage.thread(0), stage.thread(1), stage.thread(2)) {
        (Thread::Writer(w), Thread::Reader(first), Thread::Reader(second)) => Fanout {
            first: first.seen,
            second: second.seen,
            in_order: first.in_order && second.in_order,
            pushed: w.pushed,
            total_written: stage.total_written(),
        },
        _ => vstd::pervasive::unreached(),
    }
}

/// A fan-out reports what became of the ring: its threads ran to their end
/// along the schedule, each reader counted the messages that its cursor
/// passed, and the producer those that were published.
pub proof fn law_fanout_reports_the_ring(schedule: &Vec<Tick>, r: Fanout)
    requires
        call_ensures(model_fanout_two_readers, (schedule,), r),
    ensures
        exists|ticks: Seq<Tick>|
            {
                let end = #[trigger] crate::scenario::run(fanout_start(), ticks);
                &&& schedule@.is_prefix_of(ticks)
                &&& end.settled()
                &&& r.first == end.system.mem.header.read_indices[0]
                &&& r.second == end.system.mem.header.read_indices[1]
                &&& r.pushed == end.system.mem.header.write_idx
                &&& r.total_written == end.system.mem.header.write_idx
                &&& r.in_order
            },
{
    let counts = choose|counts: Seq<nat>|
        {
            let end = #[trigger] crate::scenario::run(
                fanout_start(),
                schedule@ + crate::scenario::closing(counts),
            );
            counts.len() == 3 && end.settled() && r == Fanout::of(end)
        };
    let ticks = schedule@ + crate::scenario::closing(counts);
    lemma_fanout(ticks);
    let end = crate::scenario::run(fanout_start(), ticks);
    assert(end.threads[0].done(end.system));
    assert(end.system.mem.participant(0) && end.system.mem.participant(1));
    assert(end.system.consumer_inv(0));
    assert(end.system.consumer_inv(1));
    assert(end.system.mem.cursor(0) <= end.system.mem.header.write_idx);
    assert(end.system.mem.cursor(1) <= end.system.mem.header.write_idx);
}

/// The fan-out begins with an empty ring of two slots for two readers, a
/// producer of three messages, and a reader for each cursor; each makes three
/// attempts.
pub proof fn law_fanout_starts_empty()
    ensures
        ({
            let f = fanout_start();
            &&& f.system.mem.header.capacity_mask == 1
            &&& f.system.mem.header.num_readers == 2
            &&& f.system.mem.header.write_idx == 0
            &&& f.system.mem.header.read_indices[0] == 0
            &&& f.system.mem.header.read_indices[1] == 0
            &&& f.threads.len() == 3
            &&& f.threads[0] matches Thread::Writer(w) && w.limit == 3 && w.attempts == 3 && w.left
                == 3 && w.pushed == 0
            &&& f.threads[1] matches Thread::Reader(a) && a.id == 0 && a.left == 3 && a.seen == 0
            &&& f.threads[2] matches Thread::Reader(b) && b.id == 1 && b.left == 3 && b.seen == 0
        }),
{
}

// ---------------------------------------------------------------------------
// The backpressure boundary
// ---------------------------------------------------------------------------

/// One producer of three messages, two slots, and one of two readers that
/// pops once.
pub open spec fn boundary_start() -> Scenario {
    Scenario {
        system: crate::simulator::fresh_system(LOOM_CAPACITY as int, 2, 0u64),
        notify: 0,
        threads: seq![
            Thread::Writer(new_writer(3, 1, false)),
            Thread::Reader(new_reader(0, 1)),
        ],
    }
}

/// What holds of it at all times.
spec fn boundary_inv(f: Scenario) -> bool {
    &&& f.system.consumers.len() == 2
    &&& f.system.mem.cursor(1) == 0
    &&& f.threads.len() == 2
    &&& f.threads[0] matches Thread::Writer(w) && {
        &&& writer_inv(w, f.system)
        &&& w.limit == 3
        &&& w.attempts == 1
        &&& !w.notifies
    }
    &&& f.threads[1] matches Thread::Reader(rd) && {
        &&& reader_inv(rd, f.system)
        &&& rd.id == 0
        &&& budget(rd, f.system) <= 1
    }
}

/// A tick keeps it.
proof fn lemma_boundary_tick(f: Scenario, tick: Tick)
    requires
        boundary_inv(f),
    ensures
        boundary_inv(f.turned(tick)),
        f.ready(),
{
    reveal(Thread::turned);
    let k = tick.who as int % 2;
    match f.threads[0] {
        Thread::Writer(w) => {
            if !w.done(f.system) {
                lemma_writer_turn(w, f.system, f.notify, tick.behind);
            }
        },
        _ => {},
    }
    match f.threads[1] {
        Thread::Reader(rd) => {
            if !rd.done(f.system) {
                lemma_reader_turn(rd, f.system, tick.behind);
            }
        },
        _ => {},
    }
}

/// Whatever the schedule, it holds.
proof fn lemma_boundary(ticks: Seq<Tick>)
    ensures
        boundary_inv(crate::scenario::run(boundary_start(), ticks)),
        crate::scenario::run(boundary_start(), ticks).ready(),
    decreases ticks.len(),
{
    if ticks.len() == 0 {
        lemma_fresh(2);
    } else {
        lemma_boundary(ticks.drop_last());
        lemma_boundary_tick(
            crate::scenario::run(boundary_start(), ticks.drop_last()),
            ticks.last(),
        );
    }
    lemma_boundary_tick(
        crate::scenario::run(boundary_start(), ticks),
        Tick { who: 0, behind: 0 },
    );
}

/// What [`model_backpressure_boundary`] came to.
#[derive(Debug)]
pub struct Boundary {
    /// Messages that the reader's one pop gave.
    pub popped: u64,
    /// Whether what it gave, if anything, is the first message.
    pub in_order: bool,
    /// Whether the third push succeeded.
    pub third: bool,
    /// Messages pushed.
    pub total_written: u64,
}

impl Boundary {
    /// What a scenario that ended like this came to.
    pub open spec fn of(end: Scenario) -> Self {
        match (end.threads[0], end.threads[1]) {
            (Thread::Writer(w), Thread::Reader(rd)) => Boundary {
                popped: rd.seen,
                in_order: rd.in_order,
                third: w.pushed == 3,
                total_written: end.system.mem.header.total_written,
            },
            _ => arbitrary(),
        }
    }
}

/// The backpressure boundary: one producer attempts three pushes into two
/// slots, one of two readers pops once.
///
/// Whatever the schedule, the first two pushes succeed, the pop sees nothing
/// or the first message, and the third push succeeds only if the reader
/// advanced before it. As the other reader never does, it never succeeds.
pub fn model_backpressure_boundary(schedule: &Vec<Tick>) -> (r: Boundary)
    ensures
        exists|counts: Seq<nat>|
            {
                let end = #[trigger] crate::scenario::run(
                    boundary_start(),
                    schedule@ + crate::scenario::closing(counts),
                );
                counts.len() == 2 && end.settled() && r == Boundary::of(end)
            },
        r.popped <= 1,
        r.in_order,
        r.third ==> r.popped == 1,
        r.third == (r.total_written == 3),
        r.total_written == LOOM_CAPACITY,
{
    let mut threads: Vec<Thread> = Vec::new();
    threads.push(
        Thread::Writer(Writer { limit: 3, attempts: 1, left: 1, pushed: 0, notifies: false }),
    );
    threads.push(Thread::Reader(Reader { id: 0, left: 1, seen: 0, in_order: true }));
    let mut stage = stage(2, threads);
    proof {
        assert(stage@.threads =~= boundary_start().threads);
        assert forall|ticks: Seq<Tick>|
            (#[trigger] crate::scenario::run(boundary_start(), ticks)).ready() by {
            lemma_boundary(ticks);
        }
    }
    let counts = stage.play(schedule);
    proof {
        let ticks = schedule@ + crate::scenario::closing(counts@);
        lemma_boundary(ticks);
        let end = crate::scenario::run(boundary_start(), ticks);
        assert(end == stage@);
        crate::interleaving::lemma_inv_is_safe(end.system);
        assert(end.system.safe_for(0));
        assert(end.system.safe_for(1));
        assert(end.threads[0].done(end.system));
    }
    match (stage.thread(0), stage.thread(1)) {
        (Thread::Writer(w), Thread::Reader(rd)) => Boundary {
            popped: rd.seen,
            in_order: rd.in_order,
            third: w.pushed == 3,
            total_written: stage.total_written(),
        },
        _ => vstd::pervasive::unreached(),
    }
}

/// The boundary scenario reports what became of the ring.
pub proof fn law_boundary_reports_the_ring(schedule: &Vec<Tick>, r: Boundary)
    requires
        call_ensures(model_backpressure_boundary, (schedule,), r),
    ensures
        exists|ticks: Seq<Tick>|
            {
                let end = #[trigger] crate::scenario::run(boundary_start(), ticks);
                &&& schedule@.is_prefix_of(ticks)
                &&& end.settled()
                &&& r.popped == end.system.mem.header.read_indices[0]
                &&& r.total_written == end.system.mem.header.write_idx
                &&& r.third <==> end.system.mem.header.write_idx == 3
                &&& r.in_order
            },
{
    let counts = choose|counts: Seq<nat>|
        {
            let end = #[trigger] crate::scenario::run(
                boundary_start(),
                schedule@ + crate::scenario::closing(counts),
            );
            counts.len() == 2 && end.settled() && r == Boundary::of(end)
        };
    let ticks = schedule@ + crate::scenario::closing(counts);
    lemma_boundary(ticks);
    let end = crate::scenario::run(boundary_start(), ticks);
    assert(end.threads[0].done(end.system));
    assert(end.system.mem.participant(0));
    assert(end.system.consumer_inv(0));
    assert(end.system.mem.cursor(0) <= end.system.mem.header.write_idx);
}

/// It begins with an empty ring of two slots for two readers, a producer that
/// tries three messages once each, and one reader that pops once.
pub proof fn law_boundary_starts_empty()
    ensures
        ({
            let f = boundary_start();
            &&& f.system.mem.header.capacity_mask == 1
            &&& f.system.mem.header.num_readers == 2
            &&& f.system.mem.header.write_idx == 0
            &&& f.system.mem.header.read_indices[0] == 0
            &&& f.system.mem.header.read_indices[1] == 0
            &&& f.threads.len() == 2
            &&& f.threads[0] matches Thread::Writer(w) && w.limit == 3 && w.attempts == 1 && w.left
                == 1 && w.pushed == 0
            &&& f.threads[1] matches Thread::Reader(a) && a.id == 0 && a.left == 1 && a.seen == 0
        }),
{
}

// ---------------------------------------------------------------------------
// A loan against backpressure
// ---------------------------------------------------------------------------

/// A borrower before it starts.
pub open spec fn new_borrower(left: usize) -> Borrower {
    Borrower {
        at: Borrowing::ClaimFirst,
        left,
        first: None,
        second: None,
        refused: false,
        committed: false,
    }
}

/// One producer of three messages, two slots, and a consumer that borrows.
pub open spec fn pinning_start() -> Scenario {
    Scenario {
        system: crate::simulator::fresh_system(LOOM_CAPACITY as int, 1, 0u64),
        notify: 0,
        threads: seq![
            Thread::Writer(new_writer(3, ATTEMPTS, false)),
            Thread::Borrower(new_borrower(ATTEMPTS)),
        ],
    }
}

/// What holds of a borrower. Before the first loan is committed the cursor is
/// at 0, which is what stops the producer.
spec fn borrower_inv(b: Borrower, s: System<u64>) -> bool {
    let c = s.consumers[0];
    let base = c.handle.claim_base[0];
    let cursor = s.mem.cursor(0);
    &&& s.inv()
    &&& counting(s)
    &&& s.consumers.len() == 1
    &&& !(b.at is ClaimFirst) && !(b.at is Finished) ==> b.first == Some((0u64, 1u64))
    &&& b.committed ==> b.at is Finished
    &&& match b.at {
        Borrowing::ClaimFirst => {
            &&& cursor == 0
            &&& base == 0
            &&& c.open == Seq::<u64>::empty()
            &&& b.first is None
            &&& b.second is None
            &&& !b.refused
            &&& match c.task {
                Task::Idle => true,
                Task::Claim { stage } => match stage {
                    ClaimStage::Reserve { base, idx } => base == 0 && idx == 0,
                    _ => true,
                },
                _ => false,
            }
        },
        Borrowing::ClaimSecond => {
            &&& cursor == 0
            &&& base == 1
            &&& c.open == seq![0u64]
            &&& b.second is None
            &&& !b.refused
            &&& match c.task {
                Task::Claim { stage } => match stage {
                    ClaimStage::Reserve { base, idx } => base == 1 && idx == 1,
                    _ => true,
                },
                _ => false,
            }
        },
        Borrowing::CommitSecond => {
            &&& cursor == 0
            &&& c.open == seq![0u64, 1u64]
            &&& b.second == Some(1u64)
            &&& !b.refused
            &&& c.task.resting() || c.task == (Task::Resolve {
                index: 1,
                mode: ResolveMode::Commit,
                stage: ResolveStage::LoadCursor,
            })
        },
        Borrowing::DropSecond => {
            &&& cursor == 0
            &&& b.second == Some(1u64)
            &&& b.refused
            &&& if c.task.resting() {
                c.open == seq![0u64, 1u64]
            } else {
                &&& c.task matches Task::Resolve { index, mode, stage }
                &&& index == 1
                &&& mode == ResolveMode::Drop
                &&& match stage {
                    ResolveStage::LoadCursor => c.open == seq![0u64, 1u64],
                    ResolveStage::LowerGate => c.open == seq![0u64],
                    _ => false,
                }
            }
        },
        Borrowing::CommitFirst => {
            &&& b.second is Some ==> b.second == Some(1u64) && b.refused
            &&& if c.task.resting() {
                cursor == 0 && c.open == seq![0u64]
            } else {
                &&& c.task matches Task::Resolve { index, mode, stage }
                &&& index == 0
                &&& mode == ResolveMode::Commit
                &&& match stage {
                    ResolveStage::LoadCursor => cursor == 0 && c.open == seq![0u64],
                    ResolveStage::Advance => cursor == 0 && c.open == seq![0u64],
                    ResolveStage::LowerGate => cursor == 1,
                    _ => false,
                }
            }
        },
        Borrowing::Finished => {
            &&& b.second is Some ==> b.second == Some(1u64) && b.refused
            &&& if b.first is Some {
                b.committed && b.first == Some((0u64, 1u64)) && cursor == 1
            } else {
                !b.committed && b.second is None && cursor == 0
            }
        },
    }
}

/// With loans 0 and 1 open, what is left without one of them is the other.
proof fn lemma_pair_of_loans()
    ensures
        crate::interleaving::without(seq![0u64, 1u64], 1) == seq![0u64],
        crate::interleaving::without(seq![0u64], 0) == Seq::<u64>::empty(),
        seq![0u64, 1u64].contains(1),
        seq![0u64].contains(0),
        Seq::<u64>::empty().push(0) == seq![0u64],
        seq![0u64].push(1) == seq![0u64, 1u64],
{
    let pair = seq![0u64, 1u64];
    assert(pair[1] == 1);
    assert(pair.contains(1));
    let k = pair.index_of(1);
    assert(pair[k] == 1);
    assert(k == 1);
    assert(pair.remove(1) =~= seq![0u64]);
    let one = seq![0u64];
    assert(one[0] == 0);
    assert(one.contains(0));
    assert(one.index_of(0) == 0);
    assert(one.remove(0) =~= Seq::<u64>::empty());
    assert(Seq::<u64>::empty().push(0) =~= one);
    assert(one.push(1) =~= pair);
}

/// A borrower's turn.
proof fn lemma_borrower_turn(b: Borrower, s: System<u64>, behind: u64)
    requires
        borrower_inv(b, s),
        !b.done(),
    ensures
        b.ready(s),
        borrower_inv(b.turned(s, behind).0, b.turned(s, behind).1),
        consumer_only(s, b.turned(s, behind).1, 0),
{
    let (x, t) = b.turned(s, behind);
    lemma_pair_of_loans();
    assert(s.mem.participant(0));
    assert(s.consumer_inv(0));
    assert(s.mem.cursor(0) <= s.mem.header.write_idx);
    if !s.consumers[0].task.resting() {
        let answer = crate::simulator::consumer_answer(s, 0, behind);
        crate::interleaving::lemma_event_keeps_inv(s, Event::ConsumerStep { r: 0, answer });
        crate::interleaving::lemma_inv_is_safe(t);
        assert(t.safe_for(0));
    } else {
        match b.at {
            Borrowing::ClaimFirst | Borrowing::ClaimSecond => {
                crate::interleaving::lemma_event_keeps_inv(s, Event::StartClaim { r: 0 });
            },
            Borrowing::CommitSecond => {
                crate::interleaving::lemma_event_keeps_inv(
                    s,
                    Event::StartResolve { r: 0, index: 1, mode: ResolveMode::Commit },
                );
            },
            Borrowing::DropSecond => {
                crate::interleaving::lemma_event_keeps_inv(
                    s,
                    Event::StartResolve { r: 0, index: 1, mode: ResolveMode::Drop },
                );
            },
            Borrowing::CommitFirst => {
                crate::interleaving::lemma_event_keeps_inv(
                    s,
                    Event::StartResolve { r: 0, index: 0, mode: ResolveMode::Commit },
                );
            },
            Borrowing::Finished => {},
        }
    }
    assert(t.mem.participant(0));
    assert(t.consumer_inv(0));
}

/// A borrower is undisturbed by the producer.
proof fn lemma_borrower_undisturbed(b: Borrower, s: System<u64>, t: System<u64>)
    requires
        borrower_inv(b, s),
        producer_only(s, t),
        t.inv(),
        counting(t),
    ensures
        borrower_inv(b, t),
{
    assert(t.mem.cursor(0) == s.mem.cursor(0));
}

/// What holds of the scenario at all times.
spec fn pinning_inv(f: Scenario) -> bool {
    &&& f.threads.len() == 2
    &&& f.threads[0] matches Thread::Writer(w) && {
        &&& writer_inv(w, f.system)
        &&& w.limit == 3
        &&& w.attempts == ATTEMPTS
        &&& !w.notifies
    }
    &&& f.threads[1] matches Thread::Borrower(b) && borrower_inv(b, f.system)
}

/// A tick keeps it.
proof fn lemma_pinning_tick(f: Scenario, tick: Tick)
    requires
        pinning_inv(f),
    ensures
        pinning_inv(f.turned(tick)),
        f.ready(),
{
    reveal(Thread::turned);
    let k = tick.who as int % 2;
    let g = f.turned(tick);
    match (f.threads[0], f.threads[1]) {
        (Thread::Writer(w), Thread::Borrower(b)) => {
            if !w.done(f.system) {
                lemma_writer_turn(w, f.system, f.notify, tick.behind);
                if k == 0 {
                    assert(g.threads[1] == f.threads[1]);
                    lemma_borrower_undisturbed(b, f.system, g.system);
                }
            }
            if !b.done() {
                lemma_borrower_turn(b, f.system, tick.behind);
                if k == 1 {
                    assert(g.threads[0] == f.threads[0]);
                    lemma_writer_undisturbed(w, f.system, g.system, 0);
                }
            }
        },
        _ => {},
    }
}

/// Whatever the schedule, it holds.
proof fn lemma_pinning(ticks: Seq<Tick>)
    ensures
        pinning_inv(crate::scenario::run(pinning_start(), ticks)),
        crate::scenario::run(pinning_start(), ticks).ready(),
    decreases ticks.len(),
{
    if ticks.len() == 0 {
        lemma_fresh(1);
    } else {
        lemma_pinning(ticks.drop_last());
        lemma_pinning_tick(
            crate::scenario::run(pinning_start(), ticks.drop_last()),
            ticks.last(),
        );
    }
    lemma_pinning_tick(
        crate::scenario::run(pinning_start(), ticks),
        Tick { who: 0, behind: 0 },
    );
}

/// What [`model_loan_pins_cursor_against_backpressure`] came to.
#[derive(Debug)]
pub struct Pinning {
    /// Stream index and message of the first loan, if it was claimed.
    pub first: Option<(u64, u64)>,
    /// Stream index of the second loan, if it was claimed.
    pub second: Option<u64>,
    /// Whether the commit of the second before the first was refused.
    pub out_of_order_refused: bool,
    /// Whether the first loan was committed.
    pub committed: bool,
    /// Messages pushed.
    pub total_written: u64,
}

impl Pinning {
    /// What a scenario that ended like this came to.
    pub open spec fn of(end: Scenario) -> Self {
        match end.threads[1] {
            Thread::Borrower(b) => Pinning {
                first: b.first,
                second: b.second,
                out_of_order_refused: b.refused,
                committed: b.committed,
                total_written: end.system.mem.header.total_written,
            },
            _ => arbitrary(),
        }
    }
}

/// A loan pins the cursor: a consumer borrows the first message while a
/// producer tries to push three into two slots.
///
/// Whatever the schedule, the first loan is for stream index 0 and views the
/// first message, a second one taken while it is open is for index 1, the
/// second cannot be committed before the first, the first can, and the third
/// push succeeds only if it was: to the producer an open loan is a cursor
/// that has not moved.
pub fn model_loan_pins_cursor_against_backpressure(schedule: &Vec<Tick>) -> (r: Pinning)
    ensures
        exists|counts: Seq<nat>|
            {
                let end = #[trigger] crate::scenario::run(
                    pinning_start(),
                    schedule@ + crate::scenario::closing(counts),
                );
                counts.len() == 2 && end.settled() && r == Pinning::of(end)
            },
        r.first is Some ==> r.first == Some((0u64, 1u64)),
        r.second is Some ==> r.first is Some && r.second == Some(1u64),
        r.second is Some ==> r.out_of_order_refused,
        r.committed == (r.first is Some),
        LOOM_CAPACITY <= r.total_written <= 3,
        r.total_written == 3 ==> r.committed,
{
    let mut threads: Vec<Thread> = Vec::new();
    threads.push(
        Thread::Writer(
            Writer { limit: 3, attempts: ATTEMPTS, left: ATTEMPTS, pushed: 0, notifies: false },
        ),
    );
    threads.push(
        Thread::Borrower(
            Borrower {
                at: Borrowing::ClaimFirst,
                left: ATTEMPTS,
                first: None,
                second: None,
                refused: false,
                committed: false,
            },
        ),
    );
    let mut stage = stage(1, threads);
    proof {
        assert(stage@.threads =~= pinning_start().threads);
        assert forall|ticks: Seq<Tick>|
            (#[trigger] crate::scenario::run(pinning_start(), ticks)).ready() by {
            lemma_pinning(ticks);
        }
    }
    let counts = stage.play(schedule);
    proof {
        let ticks = schedule@ + crate::scenario::closing(counts@);
        lemma_pinning(ticks);
        let end = crate::scenario::run(pinning_start(), ticks);
        assert(end == stage@);
        crate::interleaving::lemma_inv_is_safe(end.system);
        assert(end.system.safe_for(0));
        assert(end.threads[0].done(end.system));
        assert(end.threads[1].done(end.system));
    }
    match stage.thread(1) {
        Thread::Borrower(b) => Pinning {
            first: b.first,
            second: b.second,
            out_of_order_refused: b.refused,
            committed: b.committed,
            total_written: stage.total_written(),
        },
        _ => vstd::pervasive::unreached(),
    }
}

/// The loan scenario reports what became of the ring: the first loan was
/// committed exactly if the cursor passed its message.
pub proof fn law_pinning_reports_the_ring(schedule: &Vec<Tick>, r: Pinning)
    requires
        call_ensures(model_loan_pins_cursor_against_backpressure, (schedule,), r),
    ensures
        exists|ticks: Seq<Tick>|
            {
                let end = #[trigger] crate::scenario::run(pinning_start(), ticks);
                &&& schedule@.is_prefix_of(ticks)
                &&& end.settled()
                &&& r.total_written == end.system.mem.header.write_idx
                &&& r.committed <==> end.system.mem.header.read_indices[0] == 1
                &&& !r.committed <==> end.system.mem.header.read_indices[0] == 0
                &&& r.committed <==> r.first is Some
                &&& r.first is Some ==> r.first == Some((0u64, 1u64))
            },
{
    let counts = choose|counts: Seq<nat>|
        {
            let end = #[trigger] crate::scenario::run(
                pinning_start(),
                schedule@ + crate::scenario::closing(counts),
            );
            counts.len() == 2 && end.settled() && r == Pinning::of(end)
        };
    let ticks = schedule@ + crate::scenario::closing(counts);
    lemma_pinning(ticks);
    let end = crate::scenario::run(pinning_start(), ticks);
    assert(end.threads[0].done(end.system));
    assert(end.threads[1].done(end.system));
    assert(end.system.mem.participant(0));
    assert(end.system.mem.cursor(0) <= end.system.mem.header.write_idx);
}

/// It begins with an empty ring of two slots for one reader, a producer of
/// three messages, and a borrower that has claimed nothing.
pub proof fn law_pinning_starts_empty()
    ensures
        ({
            let f = pinning_start();
            &&& f.system.mem.header.capacity_mask == 1
            &&& f.system.mem.header.num_readers == 1
            &&& f.system.mem.header.write_idx == 0
            &&& f.system.mem.header.read_indices[0] == 0
            &&& f.threads.len() == 2
            &&& f.threads[0] matches Thread::Writer(w) && w.limit == 3 && w.attempts == 3 && w.left
                == 3 && w.pushed == 0
            &&& f.threads[1] matches Thread::Borrower(b) && b.at is ClaimFirst && b.left == 3
                && b.first is None
        }),
{
}

// ---------------------------------------------------------------------------
// The notification handshake
// ---------------------------------------------------------------------------

/// A sleeper before it starts.
pub open spec fn new_sleeper(left: usize, patience: usize) -> Sleeper {
    Sleeper {
        at: Sleeping::Look,
        left,
        patience,
        spins: 0,
        seen: 0,
        got: None,
        woken: false,
    }
}

/// A producer of one message that then bumps the counter, and a consumer that
/// sleeps on it.
pub open spec fn wakeup_start() -> Scenario {
    Scenario {
        system: crate::simulator::fresh_system(LOOM_CAPACITY as int, 1, 0u64),
        notify: 0,
        threads: seq![
            Thread::Writer(new_writer(1, 1, true)),
            Thread::Sleeper(new_sleeper(ATTEMPTS, ATTEMPTS)),
        ],
    }
}

/// What holds of a sleeper.
spec fn sleeper_inv(z: Sleeper, s: System<u64>, notify: u64) -> bool {
    let c = s.consumers[0];
    &&& s.inv()
    &&& counting(s)
    &&& s.consumers.len() == 1
    &&& c.open.len() == 0
    &&& c.task is Idle || c.task is Pop
    &&& notify <= 1
    &&& notify == 1 ==> s.stream.len() >= 1
    &&& z.seen <= notify
    &&& !(z.at is Finished) ==> s.mem.cursor(0) == 0
    &&& z.at is ReadCounter || z.at is Spin ==> c.task.resting()
    &&& z.at is Finished || z.woken == (z.at is WokenLook)
    &&& z.at is WokenLook ==> {
        &&& s.stream.len() >= 1
        &&& c.task matches Task::Pop { stage: PopStage::LoadCursor { w } } ==> w >= 1
    }
    &&& z.got is Some ==> z.got == Some(1u64)
    &&& z.at is Finished && z.woken ==> z.got is Some
}

/// A sleeper's turn.
proof fn lemma_sleeper_turn(z: Sleeper, s: System<u64>, notify: u64, behind: u64)
    requires
        sleeper_inv(z, s, notify),
        !z.done(),
    ensures
        z.ready(s),
        sleeper_inv(z.turned(s, notify, behind).0, z.turned(s, notify, behind).1, notify),
        consumer_only(s, z.turned(s, notify, behind).1, 0),
{
    let (x, t) = z.turned(s, notify, behind);
    assert(s.mem.participant(0));
    assert(s.consumer_inv(0));
    assert(s.mem.cursor(0) <= s.mem.header.write_idx);
    if s.consumers[0].task.resting() {
        crate::interleaving::lemma_event_keeps_inv(s, Event::StartPop { r: 0 });
    } else {
        let seen = if z.at is WokenLook {
            Sleeper::limited(s, behind)
        } else {
            behind
        };
        let answer = crate::simulator::consumer_answer(s, 0, seen);
        crate::interleaving::lemma_event_keeps_inv(s, Event::ConsumerStep { r: 0, answer });
    }
    assert(t.mem.participant(0));
    assert(t.consumer_inv(0));
}

/// A sleeper is undisturbed by the producer, and by a bump of the counter that
/// follows a publish.
proof fn lemma_sleeper_undisturbed(
    z: Sleeper,
    s: System<u64>,
    t: System<u64>,
    before: u64,
    after: u64,
)
    requires
        sleeper_inv(z, s, before),
        producer_only(s, t),
        t.inv(),
        counting(t),
        before <= after <= 1,
        after == 1 ==> t.stream.len() >= 1,
    ensures
        sleeper_inv(z, t, after),
{
    assert(t.mem.cursor(0) == s.mem.cursor(0));
}

/// What holds of the scenario at all times.
spec fn wakeup_inv(f: Scenario) -> bool {
    &&& f.threads.len() == 2
    &&& f.threads[0] matches Thread::Writer(w) && {
        &&& writer_inv(w, f.system)
        &&& w.limit == 1
        &&& w.attempts == 1
        &&& w.notifies ==> f.notify == 0
        &&& !w.notifies ==> w.pushed == 1
    }
    &&& f.threads[1] matches Thread::Sleeper(z) && sleeper_inv(z, f.system, f.notify)
}

/// A tick keeps it.
proof fn lemma_wakeup_tick(f: Scenario, tick: Tick)
    requires
        wakeup_inv(f),
    ensures
        wakeup_inv(f.turned(tick)),
        f.ready(),
{
    reveal(Thread::turned);
    let k = tick.who as int % 2;
    let g = f.turned(tick);
    match (f.threads[0], f.threads[1]) {
        (Thread::Writer(w), Thread::Sleeper(z)) => {
            if !w.done(f.system) {
                lemma_writer_turn(w, f.system, f.notify, tick.behind);
                if k == 0 {
                    assert(g.threads[1] == f.threads[1]);
                    lemma_sleeper_undisturbed(z, f.system, g.system, f.notify, g.notify);
                }
            }
            if !z.done() {
                lemma_sleeper_turn(z, f.system, f.notify, tick.behind);
                if k == 1 {
                    assert(g.threads[0] == f.threads[0]);
                    lemma_writer_undisturbed(w, f.system, g.system, 0);
                }
            }
        },
        _ => {},
    }
}

/// Whatever the schedule, it holds.
proof fn lemma_wakeup(ticks: Seq<Tick>)
    ensures
        wakeup_inv(crate::scenario::run(wakeup_start(), ticks)),
        crate::scenario::run(wakeup_start(), ticks).ready(),
    decreases ticks.len(),
{
    if ticks.len() == 0 {
        lemma_fresh(1);
    } else {
        lemma_wakeup(ticks.drop_last());
        lemma_wakeup_tick(crate::scenario::run(wakeup_start(), ticks.drop_last()), ticks.last());
    }
    lemma_wakeup_tick(crate::scenario::run(wakeup_start(), ticks), Tick { who: 0, behind: 0 });
}

/// What [`model_notify_no_lost_wakeup`] came to.
#[derive(Debug)]
pub struct Wakeup {
    /// The message the consumer got, if any.
    pub got: Option<u64>,
    /// Whether the consumer got as far as parking and being woken.
    pub woken: bool,
    /// Messages pushed.
    pub total_written: u64,
}

impl Wakeup {
    /// What a scenario that ended like this came to.
    pub open spec fn of(end: Scenario) -> Self {
        match end.threads[1] {
            Thread::Sleeper(z) => Wakeup {
                got: z.got,
                woken: z.woken,
                total_written: end.system.mem.header.total_written,
            },
            _ => arbitrary(),
        }
    }
}

/// The notification handshake: the producer publishes and then bumps a
/// counter; the consumer looks, and parks until the counter moves.
///
/// Whatever the schedule, the push succeeds, the consumer gets nothing or the
/// message, and a consumer that was woken gets the message: there is no
/// signal before the data.
pub fn model_notify_no_lost_wakeup(schedule: &Vec<Tick>) -> (r: Wakeup)
    ensures
        exists|counts: Seq<nat>|
            {
                let end = #[trigger] crate::scenario::run(
                    wakeup_start(),
                    schedule@ + crate::scenario::closing(counts),
                );
                counts.len() == 2 && end.settled() && r == Wakeup::of(end)
            },
        r.got is Some ==> r.got == Some(1u64),
        r.woken ==> r.got is Some,
        r.total_written == 1,
{
    let mut threads: Vec<Thread> = Vec::new();
    threads.push(
        Thread::Writer(Writer { limit: 1, attempts: 1, left: 1, pushed: 0, notifies: true }),
    );
    threads.push(
        Thread::Sleeper(
            Sleeper {
                at: Sleeping::Look,
                left: ATTEMPTS,
                patience: ATTEMPTS,
                spins: 0,
                seen: 0,
                got: None,
                woken: false,
            },
        ),
    );
    let mut stage = stage(1, threads);
    proof {
        assert(stage@.threads =~= wakeup_start().threads);
        assert forall|ticks: Seq<Tick>|
            (#[trigger] crate::scenario::run(wakeup_start(), ticks)).ready() by {
            lemma_wakeup(ticks);
        }
    }
    let counts = stage.play(schedule);
    proof {
        let ticks = schedule@ + crate::scenario::closing(counts@);
        lemma_wakeup(ticks);
        let end = crate::scenario::run(wakeup_start(), ticks);
        assert(end == stage@);
        assert(end.threads[0].done(end.system));
        assert(end.threads[1].done(end.system));
    }
    match stage.thread(1) {
        Thread::Sleeper(z) => Wakeup {
            got: z.got,
            woken: z.woken,
            total_written: stage.total_written(),
        },
        _ => vstd::pervasive::unreached(),
    }
}

/// The handshake reports what became of the ring: its one message is
/// published, and the consumer got it or gave up.
pub proof fn law_wakeup_reports_the_ring(schedule: &Vec<Tick>, r: Wakeup)
    requires
        call_ensures(model_notify_no_lost_wakeup, (schedule,), r),
    ensures
        exists|ticks: Seq<Tick>|
            {
                let end = #[trigger] crate::scenario::run(wakeup_start(), ticks);
                &&& schedule@.is_prefix_of(ticks)
                &&& end.settled()
                &&& r.total_written == end.system.mem.header.write_idx
                &&& end.system.mem.header.write_idx == 1
                &&& end.threads[1] matches Thread::Sleeper(z) && r.got == z.got && r.woken
                    == z.woken
            },
        r.woken ==> r.got == Some(1u64),
{
    let counts = choose|counts: Seq<nat>|
        {
            let end = #[trigger] crate::scenario::run(
                wakeup_start(),
                schedule@ + crate::scenario::closing(counts),
            );
            counts.len() == 2 && end.settled() && r == Wakeup::of(end)
        };
    let ticks = schedule@ + crate::scenario::closing(counts);
    lemma_wakeup(ticks);
    let end = crate::scenario::run(wakeup_start(), ticks);
    assert(end.threads[0].done(end.system));
    assert(end.threads[1].done(end.system));
}

/// It begins with an empty ring of two slots for one reader, a producer of one
/// message that has yet to signal it, and a consumer about to look.
pub proof fn law_wakeup_starts_empty()
    ensures
        ({
            let f = wakeup_start();
            &&& f.system.mem.header.capacity_mask == 1
            &&& f.system.mem.header.num_readers == 1
            &&& f.system.mem.header.write_idx == 0
            &&& f.system.mem.header.read_indices[0] == 0
            &&& f.notify == 0
            &&& f.threads.len() == 2
            &&& f.threads[0] matches Thread::Writer(w) && w.limit == 1 && w.attempts == 1 && w.left
                == 1 && w.pushed == 0 && w.notifies
            &&& f.threads[1] matches Thread::Sleeper(z) && z.at is Look && z.left == 3
                && z.patience == 3 && z.got is None && !z.woken
        }),
{
}

} // verus!
