//! A ring in use, run one access at a time.
//!
//! A [`Simulator`] holds the shared memory, the producer and the consumers of
//! a ring, each with an operation in progress or none, and performs their
//! accesses in whatever order its owner asks for. Loads may be answered with
//! values that are out of date by as much as the owner says. It is the
//! executable counterpart of [`crate::interleaving::System`]: every state it
//! is ever in is one that the laws there speak of.

use vstd::arithmetic::power2::*;
use vstd::prelude::*;

use crate::header::MAX_READERS;
use crate::interleaving::{Consumer, Event, Producer, System, Task};
use crate::protocol::{
    perform, Access, ClaimOp, ClaimOutcome, ClaimStage, PopOp, PopOutcome, PopStage, PushOp,
    PushStage, ResolveMode, ResolveOp, ResolveStage, Word,
};
use crate::ring::{slot_index, RingMemory, SpmcRingBuffer};

verus! {

/// What a simulated consumer is doing.
enum SimTask {
    /// Nothing.
    Idle,
    /// Popping.
    Pop(PopOp),
    /// Claiming a loan.
    Claim(ClaimOp),
    /// Resolving a loan.
    Resolve(ResolveOp),
}

/// A simulated consumer.
struct SimConsumer<T> {
    ring: SpmcRingBuffer<T>,
    task: SimTask,
    held: Option<T>,
}

/// The producer, simulated.
struct SimProducer<T> {
    ring: SpmcRingBuffer<T>,
    push: Option<(T, PushOp)>,
}

/// A ring in use.
pub struct Simulator<T> {
    mem: RingMemory<T>,
    capacity: usize,
    producer: SimProducer<T>,
    consumers: Vec<SimConsumer<T>>,
    system: Ghost<System<T>>,
}

impl SimTask {
    /// Consumer `r` of a ring with `capacity` slots is doing `task`.
    spec fn is(self, task: Task, r: int, capacity: int) -> bool {
        match self {
            SimTask::Idle => task == Task::Idle,
            SimTask::Pop(op) => {
                &&& task == (Task::Pop { stage: op.stage })
                &&& op.reader == r
                &&& op.capacity == capacity
            },
            SimTask::Claim(op) => {
                &&& task == (Task::Claim { stage: op.stage })
                &&& op.reader == r
            },
            SimTask::Resolve(op) => {
                &&& task == (Task::Resolve { index: op.index, mode: op.mode, stage: op.stage })
                &&& op.reader == r
            },
        }
    }
}

impl<T> SimConsumer<T> {
    /// This is consumer `r` of a ring with `capacity` slots.
    spec fn is(self, c: Consumer<T>, r: int, capacity: int) -> bool {
        &&& self.task.is(c.task, r, capacity)
        &&& self.held == c.held
        &&& self.ring@ == c.handle
    }
}

impl<T> SimProducer<T> {
    /// This is the producer of a ring with `capacity` slots.
    spec fn is(self, p: Producer<T>, capacity: int) -> bool {
        match self.push {
            None => p == Producer::<T>::Idle,
            Some((value, op)) => {
                &&& p == (Producer::Pushing { value, stage: op.stage })
                &&& op.capacity == capacity
            },
        }
    }
}

impl<T> View for Simulator<T> {
    type V = System<T>;

    closed spec fn view(&self) -> System<T> {
        self.system@
    }
}

/// What the producer's next access is answered: a cursor up to `behind` out
/// of date, anything else as it is.
pub open spec fn producer_answer<T>(s: System<T>, behind: u64) -> u64 {
    match s.producer {
        Producer::Idle => 0,
        Producer::Pushing { stage, .. } => {
            let access = crate::protocol::push_access(s.mem.capacity(), stage);
            let current = crate::protocol::current_answer(s.mem, s.consumers[0].handle, access);
            match access {
                Access::Load { word: Word::ReadIdx { .. }, .. } => if behind <= current {
                    (current - behind) as u64
                } else {
                    0
                },
                _ => current,
            }
        },
    }
}

/// What consumer `r`'s next access is answered: the write index up to
/// `behind` out of date, but not behind the consumer's own cursor; anything
/// else as it is.
pub open spec fn consumer_answer<T>(s: System<T>, r: int, behind: u64) -> u64 {
    let c = s.consumers[r];
    let access = c.access(s.mem.capacity(), r);
    let current = crate::protocol::current_answer(s.mem, c.handle, access);
    match access {
        Access::Load { word: Word::WriteIdx, .. } => if current - behind >= s.mem.cursor(r) {
            (current - behind) as u64
        } else {
            s.mem.cursor(r)
        },
        _ => current,
    }
}

/// Accesses that the producer has left to make, at most.
pub open spec fn producer_work<T>(s: System<T>) -> nat {
    match s.producer {
        Producer::Idle => 0,
        Producer::Pushing { stage, .. } => crate::protocol::push_phase(stage) * 16
            + crate::protocol::push_left(stage),
    }
}

/// Accesses that consumer `r` has left to make, at most.
pub open spec fn consumer_work<T>(s: System<T>, r: int) -> nat {
    match s.consumers[r].task {
        Task::Idle => 0,
        Task::Pop { stage } => crate::protocol::pop_phase(stage),
        Task::Claim { stage } => match stage {
            ClaimStage::LoadReaders => 7,
            ClaimStage::RaiseGate => 6,
            ClaimStage::LoadWrite => 5,
            ClaimStage::LoadCursor { .. } => 4,
            ClaimStage::LoadBase { .. } => 3,
            ClaimStage::Reserve { .. } => 2,
            ClaimStage::LowerGate => 1,
            ClaimStage::Done { .. } => 0,
        },
        Task::Resolve { stage, .. } => match stage {
            ResolveStage::LoadCursor => 3,
            ResolveStage::Advance => 2,
            ResolveStage::Rewind => 2,
            ResolveStage::LowerGate => 1,
            _ => 0,
        },
    }
}

/// An access of the producer is one less to make.
pub proof fn lemma_producer_work<T>(s: System<T>, behind: u64)
    requires
        s.inv(),
        !s.producer.resting(),
    ensures
        producer_work(s.after(Event::ProducerStep { answer: producer_answer(s, behind) }))
            < producer_work(s),
{
}

/// An access of consumer `r` is one less to make.
pub proof fn lemma_consumer_work<T>(s: System<T>, r: int, behind: u64)
    requires
        s.inv(),
        0 <= r < s.consumers.len(),
        !s.consumers[r].task.resting(),
    ensures
        consumer_work(
            s.after(Event::ConsumerStep { r, answer: consumer_answer(s, r, behind) }),
            r,
        ) < consumer_work(s, r),
{
    assert(s.mem.participant(r));
    assert(s.consumer_inv(r));
}

/// A ring of `capacity` slots, all `blank`, before the first message, with
/// `num_readers` consumers at rest.
pub open spec fn fresh_system<T>(capacity: int, num_readers: nat, blank: T) -> System<T> {
    System {
        mem: crate::ring::RingState {
            header: crate::header::HeaderState::fresh((capacity - 1) as u64, num_readers),
            slots: Seq::new(capacity as nat, |i: int| blank),
        },
        stream: Seq::empty(),
        producer: Producer::Idle,
        consumers: Seq::new(
            num_readers,
            |r: int|
                Consumer {
                    task: Task::Idle,
                    held: None,
                    taken: Seq::empty(),
                    handle: crate::ring::HandleState::fresh(capacity, Seq::empty()),
                    open: Seq::empty(),
                },
        ),
    }
}

/// The message that the last pop of consumer `r` consumed, if the last thing
/// it did was a pop that consumed one.
pub open spec fn popped_by<T>(s: System<T>, r: int) -> Option<T> {
    match s.consumers[r].task {
        Task::Pop { stage: PopStage::Done { outcome: PopOutcome::Taken } } => s.consumers[r].held,
        _ => None,
    }
}

/// The stream index that the last claim of consumer `r` reserved, if the last
/// thing it did was a claim that reserved one.
pub open spec fn claimed_by<T>(s: System<T>, r: int) -> Option<u64> {
    match s.consumers[r].task {
        Task::Claim { stage: ClaimStage::Done { outcome: ClaimOutcome::Claimed { idx } } } => Some(
            idx,
        ),
        _ => None,
    }
}

/// Whether the last thing consumer `r` did was to resolve a loan.
pub open spec fn resolved_by<T>(s: System<T>, r: int) -> bool {
    s.consumers[r].task matches Task::Resolve { stage: ResolveStage::Resolved, .. }
}

/// How the last push ended, if there was one and it has.
pub open spec fn last_push<T>(s: System<T>) -> Option<bool> {
    match s.producer {
        Producer::Pushing { stage: PushStage::Done { pushed }, .. } => Some(pushed),
        _ => None,
    }
}

impl<T: Copy> Simulator<T> {
    /// The simulator is in the state that its view says, and that state
    /// satisfies the invariant of the protocol.
    pub closed spec fn wf(self) -> bool {
        let s = self.system@;
        &&& s.inv()
        &&& s.mem == self.mem@
        &&& self.capacity == s.mem.capacity()
        &&& self.producer.is(s.producer, self.capacity as int)
        &&& self.consumers@.len() == s.consumers.len()
        &&& forall|r: int|
            0 <= r < s.consumers.len() ==> (#[trigger] self.consumers@[r]).is(
                s.consumers[r],
                r,
                self.capacity as int,
            )
    }

    /// A well-formed simulator is in a state that satisfies the invariant of
    /// the protocol, and so keeps all that it promises.
    pub proof fn law_keeps_the_promise(&self)
        requires
            self.wf(),
        ensures
            self@.inv(),
            self@.safe(),
    {
        crate::interleaving::lemma_inv_is_safe(self@);
    }

    /// A fresh ring with its consumers at rest; `None` if there can be no such
    /// ring.
    pub fn new(capacity: usize, num_readers: usize, blank: T) -> (r: Option<Self>)
        requires
            vstd::layout::align_of::<T>() <= 64,
        ensures
            r is Some <==> {
                &&& is_pow2(capacity as int)
                &&& 1 <= num_readers <= MAX_READERS
                &&& !crate::ring::too_large::<T>(capacity as int)
            },
            r matches Some(sim) ==> {
                &&& sim.wf()
                &&& sim@ == fresh_system(capacity as int, num_readers as nat, blank)
                &&& sim@.initial()
            },
    {
        if num_readers < 1 || num_readers > MAX_READERS {
            return None;
        }
        let (ring, mem) = match SpmcRingBuffer::create_new_with_readers(
            String::new(),
            false,
            capacity,
            num_readers,
            blank,
        ) {
            Ok(made) => made,
            Err(_) => {
                return None;
            },
        };
        let mut consumers: Vec<SimConsumer<T>> = Vec::new();
        let ghost system = fresh_system(capacity as int, num_readers as nat, blank);
        let mut i: usize = 0;
        while i < num_readers
            invariant
                i <= num_readers,
                consumers@.len() == i,
                num_readers <= MAX_READERS,
                system == fresh_system(capacity as int, num_readers as nat, blank),
                forall|r: int|
                    0 <= r < i ==> (#[trigger] consumers@[r]).is(
                        system.consumers[r],
                        r,
                        capacity as int,
                    ),
            decreases num_readers - i,
        {
            let handle = SpmcRingBuffer::attach(String::new(), capacity);
            consumers.push(SimConsumer { ring: handle, task: SimTask::Idle, held: None });
            i += 1;
        }
        proof {
            reveal(is_pow2);
            assert(mem@ =~= system.mem);
            crate::interleaving::lemma_initial_inv(system);
        }
        Some(
            Simulator {
                mem,
                capacity,
                producer: SimProducer { ring, push: None },
                consumers,
                system: Ghost(system),
            },
        )
    }

    /// Number of consumers.
    pub fn consumer_count(&self) -> (r: usize)
        requires
            self.wf(),
        ensures
            r == self@.consumers.len(),
    {
        self.consumers.len()
    }

    /// The producer begins to push `value`.
    pub fn start_push(&mut self, value: T)
        requires
            old(self).wf(),
            old(self)@.enabled(Event::StartPush { value }),
        ensures
            final(self).wf(),
            final(self)@ == old(self)@.after(Event::StartPush { value }),
    {
        self.producer.push = Some((value, PushOp::new(self.capacity)));
        proof {
            crate::interleaving::lemma_event_keeps_inv(self.system@, Event::StartPush { value });
            self.system@ = self.system@.after(Event::StartPush { value });
        }
    }

    /// The producer makes its next access, seeing cursors up to `behind` out
    /// of date.
    pub fn step_producer(&mut self, behind: u64)
        requires
            old(self).wf(),
            !old(self)@.producer.resting(),
        ensures
            final(self).wf(),
            ({
                let event = Event::ProducerStep { answer: producer_answer(old(self)@, behind) };
                &&& old(self)@.enabled(event)
                &&& final(self)@ == old(self)@.after(event)
            }),
    {
        let ghost s = self.system@;
        let ghost handle = s.consumers[0].handle;
        let (value, op) = match self.producer.push {
            Some(push) => push,
            None => {
                return;
            },
        };
        let mut op = op;
        let access = op.access();
        let answer = match access {
            Access::WriteSlot { slot } => {
                proof {
                    vstd::arithmetic::div_mod::lemma_mod_bound(
                        s.mem.header.write_idx as int,
                        s.mem.capacity(),
                    );
                }
                self.mem.slots[slot] = value;
                0
            },
            _ => {
                let ghost own = self.producer.ring@;
                let current = perform(&mut self.mem, &mut self.producer.ring, access);
                assert(self.mem@ == crate::protocol::memory_after(s.mem, own, access, value));
                match access {
                    Access::Load { word: Word::ReadIdx { .. }, .. } => if behind <= current {
                        current - behind
                    } else {
                        0
                    },
                    _ => current,
                }
            },
        };
        op.advance(answer);
        self.producer.push = Some((value, op));
        proof {
            let event = Event::ProducerStep { answer };
            assert(answer == producer_answer(s, behind));
            assert(self.mem@ =~= crate::protocol::memory_after(s.mem, handle, access, value));
            crate::interleaving::lemma_event_keeps_inv(s, event);
            self.system@ = s.after(event);
        }
    }

    /// Consumer `r` begins something new.
    fn start(&mut self, r: usize, task: SimTask, Ghost(event): Ghost<Event<T>>)
        requires
            old(self).wf(),
            r < old(self)@.consumers.len(),
            old(self)@.enabled(event),
            match event {
                Event::StartPop { r: who } => {
                    &&& who == r
                    &&& task.is(
                        Task::Pop { stage: PopStage::LoadReaders },
                        r as int,
                        old(self)@.mem.capacity(),
                    )
                },
                Event::StartClaim { r: who } => {
                    &&& who == r
                    &&& task.is(
                        Task::Claim { stage: ClaimStage::LoadReaders },
                        r as int,
                        old(self)@.mem.capacity(),
                    )
                },
                Event::StartResolve { r: who, index, mode } => {
                    &&& who == r
                    &&& task.is(
                        Task::Resolve { index, mode, stage: crate::protocol::resolve_start(mode) },
                        r as int,
                        old(self)@.mem.capacity(),
                    )
                },
                _ => false,
            },
        ensures
            final(self).wf(),
            final(self)@ == old(self)@.after(event),
    {
        let c = &mut self.consumers[r];
        c.task = task;
        proof {
            crate::interleaving::lemma_event_keeps_inv(self.system@, event);
            self.system@ = self.system@.after(event);
        }
    }

    /// Consumer `r` begins to pop.
    pub fn start_pop(&mut self, r: usize)
        requires
            old(self).wf(),
            old(self)@.enabled(Event::StartPop { r: r as int }),
        ensures
            final(self).wf(),
            final(self)@ == old(self)@.after(Event::StartPop { r: r as int }),
    {
        let op = PopOp::new(self.capacity, r);
        self.start(r, SimTask::Pop(op), Ghost(Event::StartPop { r: r as int }));
    }

    /// Consumer `r` begins to claim a loan.
    pub fn start_claim(&mut self, r: usize)
        requires
            old(self).wf(),
            old(self)@.enabled(Event::StartClaim { r: r as int }),
        ensures
            final(self).wf(),
            final(self)@ == old(self)@.after(Event::StartClaim { r: r as int }),
    {
        let op = ClaimOp::new(r);
        self.start(r, SimTask::Claim(op), Ghost(Event::StartClaim { r: r as int }));
    }

    /// Consumer `r` begins to resolve its open loan at `index`.
    pub fn start_resolve(&mut self, r: usize, index: u64, mode: ResolveMode)
        requires
            old(self).wf(),
            old(self)@.enabled(Event::StartResolve { r: r as int, index, mode }),
        ensures
            final(self).wf(),
            final(self)@ == old(self)@.after(Event::StartResolve { r: r as int, index, mode }),
    {
        let op = ResolveOp::new(r, index, mode);
        let ghost event = Event::StartResolve { r: r as int, index, mode };
        self.start(r, SimTask::Resolve(op), Ghost(event));
    }

    /// Consumer `r` makes its next access, seeing the write index up to
    /// `behind` out of date.
    pub fn step_consumer(&mut self, r: usize, behind: u64)
        requires
            old(self).wf(),
            r < old(self)@.consumers.len(),
            !old(self)@.consumers[r as int].task.resting(),
        ensures
            final(self).wf(),
            ({
                let event = Event::ConsumerStep {
                    r: r as int,
                    answer: consumer_answer(old(self)@, r as int, behind),
                };
                &&& old(self)@.enabled(event)
                &&& final(self)@ == old(self)@.after(event)
            }),
    {
        let ghost s = self.system@;
        let ghost rr = r as int;
        let ghost before = self.consumers@;
        proof {
            assert(s.mem.participant(rr));
            assert(s.consumer_inv(rr));
            assert(s.mem.cursor(rr) <= s.mem.header.write_idx);
            assert(self.consumers@[rr].is(s.consumers[rr], rr, self.capacity as int));
        }
        let cursor = self.mem.header.read_idx(r);
        let c = &mut self.consumers[r];
        let access = match &c.task {
            SimTask::Idle => {
                return;
            },
            SimTask::Pop(op) => op.access(),
            SimTask::Claim(op) => op.access(),
            SimTask::Resolve(op) => op.access(),
        };
        let answer = match access {
            Access::ReadSlot { slot } => {
                proof {
                    vstd::arithmetic::div_mod::lemma_mod_bound(
                        s.mem.cursor(rr) as int,
                        s.mem.capacity(),
                    );
                }
                c.held = Some(self.mem.slots[slot]);
                0
            },
            _ => {
                let current = perform(&mut self.mem, &mut c.ring, access);
                assert(self.mem@ == crate::protocol::memory_after(
                    s.mem,
                    s.consumers[rr].handle,
                    access,
                    s.mem.slots[0],
                ));
                match access {
                    Access::Load { word: Word::WriteIdx, .. } => {
                        if current >= behind && current - behind >= cursor {
                            current - behind
                        } else {
                            cursor
                        }
                    },
                    _ => current,
                }
            },
        };
        assert(answer == consumer_answer(s, rr, behind));
        match &mut c.task {
            SimTask::Idle => {},
            SimTask::Pop(op) => {
                op.advance(answer);
            },
            SimTask::Claim(op) => {
                op.advance(answer);
            },
            SimTask::Resolve(op) => {
                op.advance(answer);
            },
        }
        proof {
            let event = Event::ConsumerStep { r: rr, answer };
            assert(s.enabled(event));
            crate::interleaving::lemma_event_keeps_inv(s, event);
            self.system@ = s.after(event);
            assert(self.consumers@[rr].is(self.system@.consumers[rr], rr, self.capacity as int));
        }
    }

    /// Whether the producer has no push in progress.
    pub fn producer_resting(&self) -> (b: bool)
        requires
            self.wf(),
        ensures
            b == self@.producer.resting(),
    {
        match &self.producer.push {
            Some((_, op)) => match op.stage {
                PushStage::Done { .. } => true,
                _ => false,
            },
            None => true,
        }
    }

    /// How the last push ended, if there was one and it has.
    pub fn push_outcome(&self) -> (r: Option<bool>)
        requires
            self.wf(),
        ensures
            r == last_push(self@),
    {
        match &self.producer.push {
            Some((_, op)) => op.outcome(),
            None => None,
        }
    }

    /// Whether consumer `r` has no operation in progress.
    pub fn resting(&self, r: usize) -> (b: bool)
        requires
            self.wf(),
            r < self@.consumers.len(),
        ensures
            b == self@.consumers[r as int].task.resting(),
    {
        assert(self.consumers@[r as int].is(
            self@.consumers[r as int],
            r as int,
            self.capacity as int,
        ));
        match &self.consumers[r].task {
            SimTask::Idle => true,
            SimTask::Pop(op) => match op.stage {
                PopStage::Done { .. } => true,
                _ => false,
            },
            SimTask::Claim(op) => match op.stage {
                ClaimStage::Done { .. } => true,
                _ => false,
            },
            SimTask::Resolve(op) => match op.stage {
                ResolveStage::Resolved => true,
                ResolveStage::NotAtCursor { .. } => true,
                _ => false,
            },
        }
    }

    /// The message that the last pop of consumer `r` consumed, if the last
    /// thing it did was a pop that consumed one.
    pub fn popped(&self, r: usize) -> (v: Option<T>)
        requires
            self.wf(),
            r < self@.consumers.len(),
        ensures
            v == popped_by(self@, r as int),
    {
        assert(self.consumers@[r as int].is(
            self@.consumers[r as int],
            r as int,
            self.capacity as int,
        ));
        match &self.consumers[r].task {
            SimTask::Pop(op) => match op.stage {
                PopStage::Done { outcome: PopOutcome::Taken } => self.consumers[r].held,
                _ => None,
            },
            _ => None,
        }
    }

    /// The stream index that the last claim of consumer `r` reserved, if the
    /// last thing it did was a claim that reserved one.
    pub fn claimed(&self, r: usize) -> (v: Option<u64>)
        requires
            self.wf(),
            r < self@.consumers.len(),
        ensures
            v == claimed_by(self@, r as int),
    {
        assert(self.consumers@[r as int].is(
            self@.consumers[r as int],
            r as int,
            self.capacity as int,
        ));
        match &self.consumers[r].task {
            SimTask::Claim(op) => match op.stage {
                ClaimStage::Done { outcome: ClaimOutcome::Claimed { idx } } => Some(idx),
                _ => None,
            },
            _ => None,
        }
    }

    /// Whether the last thing consumer `r` did was to resolve a loan.
    pub fn resolved(&self, r: usize) -> (b: bool)
        requires
            self.wf(),
            r < self@.consumers.len(),
        ensures
            b == resolved_by(self@, r as int),
    {
        assert(self.consumers@[r as int].is(
            self@.consumers[r as int],
            r as int,
            self.capacity as int,
        ));
        match &self.consumers[r].task {
            SimTask::Resolve(op) => match op.stage {
                ResolveStage::Resolved => true,
                _ => false,
            },
            _ => false,
        }
    }

    /// The message in the slot of stream index `idx`.
    pub fn message(&self, idx: u64) -> (v: T)
        requires
            self.wf(),
        ensures
            v == self@.mem.message(idx as int),
    {
        self.mem.slots[slot_index(idx, self.capacity)]
    }

    /// Messages published so far.
    pub fn write_idx(&self) -> (r: u64)
        requires
            self.wf(),
        ensures
            r == self@.mem.header.write_idx,
    {
        self.mem.header.write_idx()
    }

    /// Pushes counted so far.
    pub fn total_written(&self) -> (r: u64)
        requires
            self.wf(),
        ensures
            r == self@.mem.header.total_written,
    {
        self.mem.header.total_written()
    }
}

} // verus!
