//! Every interleaving of one producer and many consumers.
//!
//! A [`System`] is a ring in use: the shared memory, one push in progress or
//! none, and for every participant an operation of its own in progress or
//! none, each somewhere inside its machine of [`crate::protocol`]. An
//! [`Event`] is one access of one party; events of different parties come in
//! any order whatsoever.
//!
//! Loads may be answered with stale values. The producer may see any earlier
//! value of a cursor, a consumer any earlier value of the write index that is
//! not behind its own cursor (it advanced its cursor because it saw that much
//! published). Each party sees its own words as it left them. That is what
//! the release and acquire orderings of the protocol guarantee, and nothing
//! more is used.
//!
//! What is proved of every reachable state: each consumer has consumed
//! exactly a prefix of the published stream, each open loan that its reader's
//! cursor has not passed views the message published at its index, and the
//! producer is never more than a capacity ahead of any participant.
//!
//! A cursor passes an open loan in one way only. An abort rewinds the claim
//! pipeline, possibly below loans that are still open, so that an index can be
//! claimed twice; consuming one of two open loans at one index leaves the
//! other behind. Without aborts no open loan is ever passed.

use vstd::arithmetic::div_mod::*;
use vstd::prelude::*;

use crate::header::MAX_READERS;
use crate::protocol::{
    Access, ClaimStage, PopOutcome, PopStage, PushStage, ResolveMode, ResolveStage, Word,
};

verus! {

/// The producer.
pub enum Producer<T> {
    /// Between pushes.
    Idle,
    /// Pushing `value`.
    Pushing {
        /// The message.
        value: T,
        /// Where the push is.
        stage: PushStage,
    },
}

/// What a consumer is doing.
#[allow(inconsistent_fields)]
pub enum Task {
    /// Nothing.
    Idle,
    /// Popping.
    Pop {
        /// Where the pop is.
        stage: PopStage,
    },
    /// Claiming a loan.
    Claim {
        /// Where the claim is.
        stage: ClaimStage,
    },
    /// Resolving an open loan.
    Resolve {
        /// The stream index of the loan.
        index: u64,
        /// How it is to be resolved.
        mode: ResolveMode,
        /// Where the resolution is.
        stage: ResolveStage,
    },
}

/// A consumer.
pub struct Consumer<T> {
    /// What it is doing.
    pub task: Task,
    /// The message that the pop in progress has read.
    pub held: Option<T>,
    /// The messages it has consumed, oldest first.
    pub taken: Seq<T>,
    /// Its handle.
    pub handle: crate::ring::HandleState,
    /// The stream indices of its open loans, oldest first.
    pub open: Seq<u64>,
}

/// A ring in use.
pub struct System<T> {
    /// The shared memory.
    pub mem: crate::ring::RingState<T>,
    /// The messages published, oldest first.
    pub stream: Seq<T>,
    /// The producer.
    pub producer: Producer<T>,
    /// The consumers, one per participant.
    pub consumers: Seq<Consumer<T>>,
}

/// One thing that happens.
pub enum Event<T> {
    /// The producer begins to push a message.
    StartPush {
        /// The message.
        value: T,
    },
    /// The producer makes its next access, which gets `answer`.
    ProducerStep {
        /// The answer.
        answer: u64,
    },
    /// Consumer `r` begins to pop.
    StartPop {
        /// The consumer.
        r: int,
    },
    /// Consumer `r` begins to claim a loan.
    StartClaim {
        /// The consumer.
        r: int,
    },
    /// Consumer `r` begins to resolve its open loan at `index`.
    StartResolve {
        /// The consumer.
        r: int,
        /// The stream index of the loan.
        index: u64,
        /// How the loan is to be resolved.
        mode: ResolveMode,
    },
    /// Consumer `r` makes its next access, which gets `answer`.
    ConsumerStep {
        /// The consumer.
        r: int,
        /// The answer.
        answer: u64,
    },
}

impl<T> Producer<T> {
    /// No push is in progress.
    pub open spec fn resting(self) -> bool {
        match self {
            Producer::Idle => true,
            Producer::Pushing { stage, .. } => stage is Done,
        }
    }
}

impl Task {
    /// No operation is in progress.
    pub open spec fn resting(self) -> bool {
        match self {
            Task::Idle => true,
            Task::Pop { stage } => stage is Done,
            Task::Claim { stage } => stage is Done,
            Task::Resolve { stage, .. } => stage is Resolved || stage is NotAtCursor,
        }
    }
}

/// At most one of the loans in `open` is at `index`.
pub open spec fn sole(open: Seq<u64>, index: u64) -> bool {
    forall|i: int, j: int|
        0 <= i < j < open.len() ==> (#[trigger] open[i]) != index || (#[trigger] open[j]) != index
}

/// `open` without a loan at `index`.
pub open spec fn without(open: Seq<u64>, index: u64) -> Seq<u64> {
    open.remove(open.index_of(index))
}

impl<T> Consumer<T> {
    /// The access consumer `r` makes next.
    pub open spec fn access(self, capacity: int, r: int) -> Access {
        match self.task {
            Task::Idle => Access::Done,
            Task::Pop { stage } => crate::protocol::pop_access(capacity, r as usize, stage),
            Task::Claim { stage } => crate::protocol::claim_access(r as usize, stage),
            Task::Resolve { index, stage, .. } => crate::protocol::resolve_access(
                r as usize,
                index,
                stage,
            ),
        }
    }

    /// The handle after that access got `answer`; an exchange may fail
    /// without reason.
    pub open spec fn next_handle(
        self,
        mem: crate::ring::RingState<T>,
        access: Access,
        answer: u64,
    ) -> crate::ring::HandleState {
        if access is Exchange && answer != 1 {
            self.handle
        } else {
            crate::protocol::handle_after(mem, self.handle, access)
        }
    }

    /// Consumer `r` after its next access got `answer` from `mem`.
    pub open spec fn stepped(self, mem: crate::ring::RingState<T>, r: int, answer: u64) -> Self {
        let access = self.access(mem.capacity(), r);
        let handle = self.next_handle(mem, access, answer);
        match self.task {
            Task::Idle => self,
            Task::Pop { stage } => Consumer {
                task: Task::Pop { stage: crate::protocol::pop_next(r as usize, stage, answer) },
                held: match stage {
                    PopStage::ReadSlot { r: idx } => Some(mem.message(idx as int)),
                    _ => self.held,
                },
                taken: match stage {
                    PopStage::Advance { .. } => self.taken.push(self.held->Some_0),
                    _ => self.taken,
                },
                handle,
                ..self
            },
            Task::Claim { stage } => Consumer {
                task: Task::Claim { stage: crate::protocol::claim_next(r as usize, stage, answer) },
                open: match stage {
                    ClaimStage::Reserve { idx, .. } => if answer == 1 {
                        self.open.push(idx)
                    } else {
                        self.open
                    },
                    _ => self.open,
                },
                handle,
                ..self
            },
            Task::Resolve { index, mode, stage } => {
                let next = crate::protocol::resolve_next(mode, index, stage, answer);
                Consumer {
                    task: Task::Resolve { index, mode, stage: next },
                    taken: if stage is Advance {
                        self.taken.push(mem.message(index as int))
                    } else {
                        self.taken
                    },
                    open: if next is LowerGate {
                        without(self.open, index)
                    } else {
                        self.open
                    },
                    handle,
                    ..self
                }
            },
        }
    }
}

impl<T> System<T> {
    /// A ring of one or more participants at rest, before the first message.
    pub open spec fn initial(self) -> bool {
        &&& self.mem.shaped()
        &&& 1 <= self.mem.header.num_readers <= MAX_READERS
        &&& self.mem.capacity() <= usize::MAX
        &&& self.mem.header.write_idx == 0
        &&& forall|r: int| self.mem.participant(r) ==> #[trigger] self.mem.cursor(r) == 0
        &&& self.stream.len() == 0
        &&& self.producer is Idle
        &&& self.consumers.len() == self.mem.header.num_readers
        &&& forall|r: int|
            0 <= r < self.consumers.len() ==> {
                let c = #[trigger] self.consumers[r];
                &&& c.task is Idle
                &&& c.taken.len() == 0
                &&& c.open.len() == 0
                &&& c.handle == crate::ring::HandleState::fresh(
                    self.mem.capacity(),
                    c.handle.path,
                )
            }
    }

    /// The answers that the producer's access may get.
    pub open spec fn producer_may_see(self, access: Access, answer: u64) -> bool {
        match access {
            Access::Load { word: Word::WriteIdx, .. } => answer == self.mem.header.write_idx,
            Access::Load { word: Word::NumReaders, .. } => answer == self.mem.header.num_readers,
            Access::Load { word: Word::ReadIdx { reader }, .. } => answer <= self.mem.cursor(
                reader as int,
            ),
            _ => true,
        }
    }

    /// The answers that consumer `r`'s access may get.
    pub open spec fn consumer_may_see(self, r: int, access: Access, answer: u64) -> bool {
        let handle = self.consumers[r].handle;
        match access {
            Access::Load { word, .. } => if word == Word::WriteIdx {
                self.mem.cursor(r) <= answer <= self.mem.header.write_idx
            } else {
                answer == crate::protocol::word_value(self.mem, handle, word)
            },
            Access::Exchange { word, current, .. } => answer == 1
                ==> crate::protocol::word_value(self.mem, handle, word) == current,
            _ => true,
        }
    }

    /// Whether an event can happen.
    pub open spec fn enabled(self, event: Event<T>) -> bool {
        match event {
            Event::StartPush { .. } => {
                &&& self.producer.resting()
                &&& self.mem.header.write_idx < u64::MAX
            },
            Event::ProducerStep { answer } => {
                &&& !self.producer.resting()
                &&& self.producer matches Producer::Pushing { stage, .. }
                    && self.producer_may_see(
                    crate::protocol::push_access(self.mem.capacity(), stage),
                    answer,
                )
            },
            Event::StartPop { r } => {
                &&& 0 <= r < self.consumers.len()
                &&& self.consumers[r].task.resting()
            },
            Event::StartClaim { r } => {
                &&& 0 <= r < self.consumers.len()
                &&& self.consumers[r].task.resting()
                &&& self.consumers[r].open.len() < u64::MAX
            },
            Event::StartResolve { r, index, mode } => {
                &&& 0 <= r < self.consumers.len()
                &&& self.consumers[r].task.resting()
                &&& self.consumers[r].open.contains(index)
            },
            Event::ConsumerStep { r, answer } => {
                &&& 0 <= r < self.consumers.len()
                &&& !self.consumers[r].task.resting()
                &&& self.consumer_may_see(
                    r,
                    self.consumers[r].access(self.mem.capacity(), r),
                    answer,
                )
            },
        }
    }

    /// The system with consumer `r` doing something new.
    pub open spec fn with_task(self, r: int, task: Task) -> Self {
        System {
            consumers: self.consumers.update(r, Consumer { task, ..self.consumers[r] }),
            ..self
        }
    }

    /// The system after an event.
    pub open spec fn after(self, event: Event<T>) -> Self {
        match event {
            Event::StartPush { value } => System {
                producer: Producer::Pushing { value, stage: PushStage::LoadWrite },
                ..self
            },
            Event::ProducerStep { answer } => match self.producer {
                Producer::Idle => self,
                Producer::Pushing { value, stage } => {
                    let capacity = self.mem.capacity();
                    System {
                        mem: crate::protocol::memory_after(
                            self.mem,
                            self.consumers[0].handle,
                            crate::protocol::push_access(capacity, stage),
                            value,
                        ),
                        stream: if stage is Publish {
                            self.stream.push(value)
                        } else {
                            self.stream
                        },
                        producer: Producer::Pushing {
                            value,
                            stage: crate::protocol::push_next(capacity, stage, answer),
                        },
                        ..self
                    }
                },
            },
            Event::StartPop { r } => self.with_task(r, Task::Pop { stage: PopStage::LoadReaders }),
            Event::StartClaim { r } => self.with_task(
                r,
                Task::Claim { stage: ClaimStage::LoadReaders },
            ),
            Event::StartResolve { r, index, mode } => self.with_task(
                r,
                Task::Resolve { index, mode, stage: crate::protocol::resolve_start(mode) },
            ),
            Event::ConsumerStep { r, answer } => System {
                mem: crate::protocol::memory_after(
                    self.mem,
                    self.consumers[r].handle,
                    self.consumers[r].access(self.mem.capacity(), r),
                    self.mem.slots[0],
                ),
                consumers: self.consumers.update(
                    r,
                    self.consumers[r].stepped(self.mem, r, answer),
                ),
                ..self
            },
        }
    }

    /// The producer has written the next slot and not yet published it.
    pub open spec fn overwriting(self) -> bool {
        self.producer matches Producer::Pushing { stage: PushStage::Publish { .. }, .. }
    }

    /// Every slot that a participant may read holds the message published at
    /// its index.
    pub open spec fn slots_hold_stream(self) -> bool {
        forall|j: int|
            {
                &&& 0 <= j < self.stream.len()
                &&& self.stream.len() - self.mem.capacity() <= j
                &&& self.overwriting() ==> self.stream.len() - self.mem.capacity() < j
            } ==> #[trigger] self.mem.message(j) == self.stream[j]
    }

    /// The slowest participant is less than a capacity behind.
    pub open spec fn room(self) -> bool {
        forall|r: int|
            self.mem.participant(r) ==> self.mem.header.write_idx - #[trigger] self.mem.cursor(r)
                < self.mem.capacity()
    }

    /// What the producer knows in its stage.
    pub open spec fn producer_inv(self) -> bool {
        let write_idx = self.mem.header.write_idx;
        self.producer matches Producer::Pushing { value, stage } ==> match stage {
            PushStage::LoadWrite => write_idx < u64::MAX,
            PushStage::LoadReaders { w } => w == write_idx && write_idx < u64::MAX,
            PushStage::Scan { w, num_readers, next, least } => {
                &&& w == write_idx
                &&& write_idx < u64::MAX
                &&& num_readers == self.mem.header.num_readers
                &&& next < num_readers
                &&& forall|k: int| 0 <= k < next ==> least <= #[trigger] self.mem.cursor(k)
            },
            PushStage::WriteSlot { w } => w == write_idx && write_idx < u64::MAX && self.room(),
            PushStage::Publish { w } => {
                &&& w == write_idx
                &&& write_idx < u64::MAX
                &&& self.room()
                &&& self.mem.message(w as int) == value
            },
            _ => true,
        }
    }

    /// The open loans of consumer `r` are for published messages.
    pub open spec fn loans_inv(self, r: int) -> bool {
        let c = self.consumers[r];
        forall|i: int|
            0 <= i < c.open.len() ==> #[trigger] c.open[i] < self.mem.header.write_idx
    }

    /// What consumer `r` knows in its stage, and where its gate stands.
    pub open spec fn task_inv(self, r: int) -> bool {
        let c = self.consumers[r];
        let depth = c.handle.loan_depth[r];
        let cursor = self.mem.cursor(r);
        let write_idx = self.mem.header.write_idx;
        match c.task {
            Task::Idle => depth == c.open.len(),
            Task::Pop { stage } => {
                &&& depth == c.open.len()
                &&& match stage {
                    PopStage::LoadWrite => c.open.len() == 0,
                    PopStage::LoadCursor { w } => c.open.len() == 0 && cursor <= w <= write_idx,
                    PopStage::ReadSlot { r: idx } => {
                        &&& c.open.len() == 0
                        &&& idx == cursor
                        &&& cursor < write_idx
                    },
                    PopStage::Advance { r: idx } => {
                        &&& c.open.len() == 0
                        &&& idx == cursor
                        &&& cursor < write_idx
                        &&& c.held == Some(self.stream[cursor as int])
                    },
                    _ => true,
                }
            },
            Task::Claim { stage } => match stage {
                ClaimStage::LoadReaders => depth == c.open.len() && depth < u64::MAX,
                ClaimStage::RaiseGate => depth == c.open.len() && depth < u64::MAX,
                ClaimStage::LoadWrite => depth == c.open.len() + 1,
                ClaimStage::LoadCursor { w } => depth == c.open.len() + 1 && w <= write_idx,
                ClaimStage::LoadBase { w, cursor: seen } => {
                    &&& depth == c.open.len() + 1
                    &&& w <= write_idx
                    &&& seen == cursor
                },
                ClaimStage::Reserve { base, idx } => {
                    &&& depth == c.open.len() + 1
                    &&& base == c.handle.claim_base[r]
                    &&& cursor <= idx < write_idx
                },
                ClaimStage::LowerGate => depth == c.open.len() + 1,
                ClaimStage::Done { .. } => depth == c.open.len(),
            },
            Task::Resolve { index, mode, stage } => match stage {
                ResolveStage::LoadCursor => {
                    &&& depth == c.open.len()
                    &&& c.open.contains(index)
                },
                ResolveStage::Advance => {
                    &&& depth == c.open.len()
                    &&& c.open.contains(index)
                    &&& index == cursor
                },
                ResolveStage::Rewind => depth == c.open.len() && c.open.contains(index),
                ResolveStage::LowerGate => depth == c.open.len() + 1,
                _ => depth == c.open.len(),
            },
        }
    }

    /// What holds of consumer `r`.
    pub open spec fn consumer_inv(self, r: int) -> bool {
        let c = self.consumers[r];
        &&& c.taken == self.stream.take(self.mem.cursor(r) as int)
        &&& c.handle.claim_base.len() == MAX_READERS
        &&& c.handle.loan_depth.len() == MAX_READERS
        &&& self.loans_inv(r)
        &&& self.task_inv(r)
    }

    /// The invariant of every reachable state.
    pub open spec fn inv(self) -> bool {
        &&& self.mem.consistent()
        &&& self.mem.capacity() <= usize::MAX
        &&& self.consumers.len() == self.mem.header.num_readers
        &&& self.mem.header.write_idx == self.stream.len()
        &&& self.slots_hold_stream()
        &&& self.producer_inv()
        &&& forall|r: int| self.mem.participant(r) ==> #[trigger] self.consumer_inv(r)
    }
}

/// A ring at rest satisfies the invariant.
pub proof fn lemma_initial_inv<T>(s: System<T>)
    requires
        s.initial(),
    ensures
        s.inv(),
{
    assert forall|r: int| s.mem.participant(r) implies #[trigger] s.consumer_inv(r) by {
        let c = s.consumers[r];
        assert(s.mem.cursor(r) == 0);
        assert(c.taken =~= s.stream.take(0));
    }
}

/// Different indices from `low` on, below `high`, are at most `high - low`
/// many.
proof fn lemma_distinct_bounded(open: Seq<u64>, low: int, high: int)
    requires
        open.no_duplicates(),
        forall|i: int| 0 <= i < open.len() ==> low <= #[trigger] open[i] < high,
        low <= high,
    ensures
        open.len() <= high - low,
    decreases high - low,
{
    if low < high {
        let top = (high - 1) as u64;
        let rest = if open.contains(top) {
            open.remove(open.index_of(top))
        } else {
            open
        };
        if open.contains(top) {
            let k = open.index_of(top);
            assert(open[k] == top);
            assert forall|i: int, j: int|
                0 <= i < rest.len() && 0 <= j < rest.len() && i != j implies rest[i] != rest[j] by {
                let a = if i < k {
                    i
                } else {
                    i + 1
                };
                let b = if j < k {
                    j
                } else {
                    j + 1
                };
                assert(rest[i] == open[a] && rest[j] == open[b]);
            }
            assert forall|i: int| 0 <= i < rest.len() implies low <= #[trigger] rest[i] < high
                - 1 by {
                let a = if i < k {
                    i
                } else {
                    i + 1
                };
                assert(rest[i] == open[a]);
                assert(open[a] != open[k]);
            }
        } else {
            assert forall|i: int| 0 <= i < rest.len() implies low <= #[trigger] rest[i] < high
                - 1 by {
                assert(open.contains(open[i]));
            }
        }
        lemma_distinct_bounded(rest, low, high - 1);
    } else if open.len() > 0 {
        assert(low <= open[0] < high);
    }
}

/// Without one of its loans `open` is one shorter and holds nothing new, and
/// if that was the only one at its index, nothing else at that index.
proof fn lemma_without(open: Seq<u64>, index: u64)
    requires
        open.contains(index),
    ensures
        without(open, index).len() == open.len() - 1,
        forall|i: int|
            0 <= i < without(open, index).len() ==> open.contains(
                #[trigger] without(open, index)[i],
            ),
        sole(open, index) ==> forall|i: int|
            0 <= i < without(open, index).len() ==> #[trigger] without(open, index)[i] != index,
{
    let k = open.index_of(index);
    let rest = without(open, index);
    assert(open[k] == index);
    assert forall|i: int| 0 <= i < rest.len() implies open.contains(#[trigger] rest[i]) && (sole(
        open,
        index,
    ) ==> rest[i] != index) by {
        let o = if i < k {
            i
        } else {
            i + 1
        };
        assert(rest[i] == open[o]);
        if o < k {
            assert(open[o] != index || open[k] != index || !sole(open, index));
        } else {
            assert(open[k] != index || open[o] != index || !sole(open, index));
        }
    }
}

/// What a consumer relies on survives when others advance: the memory it can
/// see only grows.
proof fn lemma_consumer_undisturbed<T>(s: System<T>, t: System<T>, r: int)
    requires
        s.inv(),
        s.mem.participant(r),
        t.mem.participant(r),
        t.consumers.len() == s.consumers.len(),
        t.consumers[r] == s.consumers[r],
        t.mem.cursor(r) == s.mem.cursor(r),
        s.mem.header.write_idx <= t.mem.header.write_idx,
        s.stream.len() <= t.stream.len(),
        t.mem.header.write_idx == t.stream.len(),
        forall|j: int| 0 <= j < s.stream.len() ==> #[trigger] t.stream[j] == s.stream[j],
    ensures
        t.consumer_inv(r),
{
    assert(s.consumer_inv(r));
    assert(s.mem.cursor(r) <= s.mem.header.write_idx);
    let c = s.mem.cursor(r) as int;
    assert(t.stream.take(c) =~= s.stream.take(c));
}

/// An event of the producer keeps the invariant.
proof fn lemma_producer_step<T>(s: System<T>, answer: u64)
    requires
        s.inv(),
        s.enabled(Event::ProducerStep { answer }),
    ensures
        s.after(Event::ProducerStep { answer }).inv(),
{
    let e = Event::<T>::ProducerStep { answer };
    let t = s.after(e);
    let cap = s.mem.capacity();
    let w = s.mem.header.write_idx as int;
    assert(s.mem.participant(0));
    assert(s.consumer_inv(0));
    match s.producer {
        Producer::Idle => {},
        Producer::Pushing { value, stage } => {
            match stage {
                PushStage::LoadWrite => {
                    assert(t.mem == s.mem);
                },
                PushStage::LoadReaders { .. } => {
                    assert(t.mem == s.mem);
                },
                PushStage::Scan { w: seen, num_readers, next, least } => {
                    assert(t.mem == s.mem);
                    let l = if answer < least {
                        answer
                    } else {
                        least
                    };
                    assert(s.mem.participant(next as int));
                    assert(l <= s.mem.cursor(next as int));
                    assert forall|k: int| 0 <= k < next + 1 implies l <= #[trigger] s.mem.cursor(
                        k,
                    ) by {}
                    if next + 1 >= num_readers && crate::ring::distance(seen, l) < cap {
                        assert(s.mem.cursor(0) <= s.mem.header.write_idx);
                        assert forall|r: int| s.mem.participant(r) implies w
                            - #[trigger] s.mem.cursor(r) < cap by {
                            assert(l <= s.mem.cursor(r));
                        }
                    }
                },
                PushStage::WriteSlot { w: seen } => {
                    lemma_mod_bound(w, cap);
                    assert(t.mem.header == s.mem.header);
                    assert(t.mem.message(w) == value);
                    assert forall|j: int|
                        0 <= j < t.stream.len() && t.stream.len() - cap < j implies
                        #[trigger] t.mem.message(j) == t.stream[j] by {
                        crate::ring::lemma_distinct_slots(j, w, cap);
                        lemma_mod_bound(j, cap);
                        assert(s.mem.message(j) == s.stream[j]);
                    }
                    assert forall|r: int| s.mem.participant(r) implies w
                        - #[trigger] t.mem.cursor(r) < cap by {
                        assert(t.mem.cursor(r) == s.mem.cursor(r));
                    }
                },
                PushStage::Publish { w: seen } => {
                    assert(t.mem.slots == s.mem.slots);
                    assert forall|j: int|
                        0 <= j < t.stream.len() && t.stream.len() - cap <= j implies
                        #[trigger] t.mem.message(j) == t.stream[j] by {
                        assert(t.mem.message(j) == s.mem.message(j));
                    }
                },
                PushStage::Count => {
                    assert(t.mem.slots == s.mem.slots);
                    assert forall|j: int|
                        0 <= j < t.stream.len() && t.stream.len() - cap <= j implies
                        #[trigger] t.mem.message(j) == t.stream[j] by {
                        assert(t.mem.message(j) == s.mem.message(j));
                    }
                },
                PushStage::Done { .. } => {},
            }
            assert forall|r: int| t.mem.participant(r) implies #[trigger] t.mem.cursor(r)
                <= t.mem.header.write_idx && t.mem.header.write_idx - t.mem.cursor(r)
                <= t.mem.capacity() by {
                assert(t.mem.cursor(r) == s.mem.cursor(r));
                assert(s.mem.cursor(r) <= s.mem.header.write_idx);
            }
            assert forall|r: int| t.mem.participant(r) implies #[trigger] t.consumer_inv(r) by {
                assert(s.mem.participant(r));
                lemma_consumer_undisturbed(s, t, r);
            }
        },
    }
}

/// The beginning of an operation keeps the invariant.
proof fn lemma_start<T>(s: System<T>, event: Event<T>)
    requires
        s.inv(),
        s.enabled(event),
        event !is ProducerStep,
        event !is ConsumerStep,
    ensures
        s.after(event).inv(),
{
    let t = s.after(event);
    assert(t.mem == s.mem);
    assert(t.stream == s.stream);
    let who = match event {
        Event::StartPop { r } => r,
        Event::StartClaim { r } => r,
        Event::StartResolve { r, .. } => r,
        _ => -1,
    };
    if event is StartPush {
        assert forall|j: int|
            0 <= j < t.stream.len() && t.stream.len() - t.mem.capacity() <= j implies
            #[trigger] t.mem.message(j) == t.stream[j] by {
            assert(s.mem.message(j) == s.stream[j]);
        }
    }
    assert forall|r: int| t.mem.participant(r) implies #[trigger] t.consumer_inv(r) by {
        assert(s.mem.participant(r));
        assert(s.consumer_inv(r));
        if r != who {
            lemma_consumer_undisturbed(s, t, r);
        } else {
            assert(t.consumers[r].open == s.consumers[r].open);
            assert(t.consumers[r].handle == s.consumers[r].handle);
            assert(t.consumers[r].taken == s.consumers[r].taken);
        }
    }
}

/// After an event of consumer `r` that moved no cursor but at most its own,
/// the others are where they were.
proof fn lemma_others_undisturbed<T>(s: System<T>, t: System<T>, r: int)
    requires
        s.inv(),
        s.mem.participant(r),
        t.consumers.len() == s.consumers.len(),
        t.stream == s.stream,
        t.producer == s.producer,
        t.mem.slots == s.mem.slots,
        t.mem.header == s.mem.header.with_read_idx(r, t.mem.cursor(r)),
        s.mem.cursor(r) <= t.mem.cursor(r) <= s.mem.header.write_idx,
        forall|q: int| s.mem.participant(q) && q != r ==> #[trigger] t.consumers[q] == s.consumers[q],
        t.consumer_inv(r),
    ensures
        t.inv(),
{
    assert forall|q: int| s.mem.participant(q) implies s.mem.cursor(q) <= #[trigger] t.mem.cursor(
        q,
    ) && t.mem.cursor(q) <= t.mem.header.write_idx && t.mem.header.write_idx - t.mem.cursor(q)
        <= t.mem.capacity() by {
        assert(s.mem.cursor(q) <= s.mem.header.write_idx);
    }
    assert forall|j: int|
        {
            &&& 0 <= j < t.stream.len()
            &&& t.stream.len() - t.mem.capacity() <= j
            &&& t.overwriting() ==> t.stream.len() - t.mem.capacity() < j
        } implies #[trigger] t.mem.message(j) == t.stream[j] by {
        assert(t.mem.message(j) == s.mem.message(j));
    }
    assert(t.producer_inv()) by {
        match s.producer {
            Producer::Idle => {},
            Producer::Pushing { value, stage } => {
                match stage {
                    PushStage::Scan { num_readers, next, least, .. } => {
                        assert forall|k: int| 0 <= k < next implies least <= #[trigger] t.mem.cursor(
                            k,
                        ) by {
                            assert(s.mem.participant(k));
                            assert(least <= s.mem.cursor(k));
                        }
                    },
                    PushStage::Publish { w } => {
                        assert(t.mem.message(w as int) == s.mem.message(w as int));
                    },
                    _ => {},
                }
                if s.room() {
                    assert forall|q: int| t.mem.participant(q) implies t.mem.header.write_idx
                        - #[trigger] t.mem.cursor(q) < t.mem.capacity() by {
                        assert(s.mem.participant(q));
                        assert(s.mem.header.write_idx - s.mem.cursor(q) < s.mem.capacity());
                    }
                }
            },
        }
    }
    assert forall|q: int| t.mem.participant(q) implies #[trigger] t.consumer_inv(q) by {
        assert(s.mem.participant(q));
        if q != r {
            lemma_consumer_undisturbed(s, t, q);
        }
    }
}

/// A participant's front message is in its slot, whatever the producer is
/// doing.
proof fn lemma_readable<T>(s: System<T>, r: int, idx: int)
    requires
        s.inv(),
        s.mem.participant(r),
        s.mem.cursor(r) <= idx < s.mem.header.write_idx,
    ensures
        s.mem.message(idx) == s.stream[idx],
{
    assert(s.mem.cursor(r) <= s.mem.header.write_idx);
    if s.overwriting() {
        assert(s.room());
    }
}

/// A step of a pop keeps the invariant.
proof fn lemma_pop_step<T>(s: System<T>, r: int, answer: u64)
    requires
        s.inv(),
        s.enabled(Event::ConsumerStep { r, answer }),
        s.consumers[r].task is Pop,
    ensures
        s.after(Event::ConsumerStep { r, answer }).inv(),
{
    let t = s.after(Event::ConsumerStep { r, answer });
    let c = s.consumers[r];
    let d = t.consumers[r];
    assert(s.mem.participant(r));
    assert(s.consumer_inv(r));
    assert(s.mem.cursor(r) <= s.mem.header.write_idx);
    let reader = r as usize;
    assert(reader == r);
    match c.task {
        Task::Pop { stage } => {
            match stage {
                PopStage::ReadSlot { r: idx } => {
                    lemma_readable(s, r, idx as int);
                    assert(t.mem == s.mem);
                },
                PopStage::Advance { r: idx } => {
                    assert(t.mem.header == s.mem.header.with_read_idx(r, (idx + 1) as u64));
                    assert(d.taken =~= s.stream.take(idx + 1));
                },
                _ => {
                    assert(t.mem == s.mem);
                },
            }
            assert(d.handle == c.handle);
            assert(d.open == c.open);
            assert(t.consumer_inv(r));
            if !(stage is Advance) {
                assert(t.mem.header.read_indices =~= s.mem.header.with_read_idx(
                    r,
                    t.mem.cursor(r),
                ).read_indices);
            }
            lemma_others_undisturbed(s, t, r);
        },
        _ => {},
    }
}

/// A step of a claim keeps the invariant.
proof fn lemma_claim_step<T>(s: System<T>, r: int, answer: u64)
    requires
        s.inv(),
        s.enabled(Event::ConsumerStep { r, answer }),
        s.consumers[r].task is Claim,
    ensures
        s.after(Event::ConsumerStep { r, answer }).inv(),
{
    let t = s.after(Event::ConsumerStep { r, answer });
    let c = s.consumers[r];
    let d = t.consumers[r];
    assert(s.mem.participant(r));
    assert(s.consumer_inv(r));
    assert(s.mem.cursor(r) <= s.mem.header.write_idx);
    let reader = r as usize;
    assert(reader == r);
    match c.task {
        Task::Claim { stage } => {
            assert(t.mem == s.mem);
            match stage {
                ClaimStage::Reserve { base, idx } => {
                    if answer == 1 {
                        assert(d.open == c.open.push(idx));
                        assert forall|i: int| 0 <= i < d.open.len() implies #[trigger] d.open[i]
                            < t.mem.header.write_idx by {
                            if i < c.open.len() {
                                assert(d.open[i] == c.open[i]);
                            }
                        }
                    } else {
                        assert(d.handle == c.handle);
                    }
                },
                _ => {
                    assert(d.open == c.open);
                    assert(d.handle.claim_base == c.handle.claim_base);
                },
            }
            assert(t.consumer_inv(r));
            assert(t.mem.header.read_indices =~= s.mem.header.with_read_idx(
                r,
                t.mem.cursor(r),
            ).read_indices);
            lemma_others_undisturbed(s, t, r);
        },
        _ => {},
    }
}

/// A step of the resolution of a loan keeps the invariant.
proof fn lemma_resolve_step<T>(s: System<T>, r: int, answer: u64)
    requires
        s.inv(),
        s.enabled(Event::ConsumerStep { r, answer }),
        s.consumers[r].task is Resolve,
    ensures
        s.after(Event::ConsumerStep { r, answer }).inv(),
{
    let t = s.after(Event::ConsumerStep { r, answer });
    let c = s.consumers[r];
    let d = t.consumers[r];
    assert(s.mem.participant(r));
    assert(s.consumer_inv(r));
    assert(s.mem.cursor(r) <= s.mem.header.write_idx);
    let reader = r as usize;
    assert(reader == r);
    match c.task {
        Task::Resolve { index, mode, stage } => {
            let rest = without(c.open, index);
            if c.open.contains(index) {
                lemma_without(c.open, index);
                let k = c.open.index_of(index);
                assert(c.open[k] == index);
                assert forall|i: int| 0 <= i < rest.len() implies #[trigger] rest[i]
                    < s.mem.header.write_idx by {
                    let o = c.open.index_of(rest[i]);
                    assert(c.open[o] == rest[i]);
                }
            }
            match stage {
                ResolveStage::LoadCursor => {
                    assert(t.mem == s.mem);
                    assert(d.handle == c.handle);
                },
                ResolveStage::Advance => {
                    lemma_readable(s, r, index as int);
                    assert(t.mem.header == s.mem.header.with_read_idx(r, (index + 1) as u64));
                    assert(d.handle == c.handle);
                    assert(d.taken =~= s.stream.take(index + 1));
                },
                ResolveStage::Rewind => {
                    assert(t.mem == s.mem);
                },
                ResolveStage::LowerGate => {
                    assert(t.mem == s.mem);
                    assert(d.open == c.open);
                    assert(d.handle.claim_base == c.handle.claim_base);
                },
                _ => {},
            }
            assert(t.consumer_inv(r));
            if !(stage is Advance) {
                assert(t.mem.header.read_indices =~= s.mem.header.with_read_idx(
                    r,
                    t.mem.cursor(r),
                ).read_indices);
            }
            lemma_others_undisturbed(s, t, r);
        },
        _ => {},
    }
}

/// Whatever happens next, the invariant holds.
pub proof fn lemma_event_keeps_inv<T>(s: System<T>, event: Event<T>)
    requires
        s.inv(),
        s.enabled(event),
    ensures
        s.after(event).inv(),
{
    match event {
        Event::ProducerStep { answer } => {
            lemma_producer_step(s, answer);
        },
        Event::ConsumerStep { r, answer } => {
            match s.consumers[r].task {
                Task::Idle => {},
                Task::Pop { .. } => {
                    lemma_pop_step(s, r, answer);
                },
                Task::Claim { .. } => {
                    lemma_claim_step(s, r, answer);
                },
                Task::Resolve { .. } => {
                    lemma_resolve_step(s, r, answer);
                },
            }
        },
        _ => {
            lemma_start(s, event);
        },
    }
}

/// The system after `events` in a row.
pub open spec fn run<T>(s: System<T>, events: Seq<Event<T>>) -> System<T>
    decreases events.len(),
{
    if events.len() == 0 {
        s
    } else {
        run(s, events.drop_last()).after(events.last())
    }
}

/// Each of `events` can happen when its turn comes.
pub open spec fn possible<T>(s: System<T>, events: Seq<Event<T>>) -> bool
    decreases events.len(),
{
    events.len() > 0 ==> {
        &&& possible(s, events.drop_last())
        &&& run(s, events.drop_last()).enabled(events.last())
    }
}

impl<T> System<T> {
    /// What the ring promises.
    pub open spec fn safe(self) -> bool {
        forall|r: int| self.mem.participant(r) ==> #[trigger] self.safe_for(r)
    }

    /// Consumer `r` has consumed nothing that it still holds a loan for.
    pub open spec fn none_passed(self, r: int) -> bool {
        let c = self.consumers[r];
        forall|i: int| 0 <= i < c.open.len() ==> self.mem.cursor(r) <= #[trigger] c.open[i]
    }

    /// What the ring promises to consumer `r`: it has consumed exactly the
    /// first messages published, in order, none skipped, repeated, torn or
    /// stale; the producer is at most a capacity ahead of it; each of its open
    /// loans is for a published message, and views it as published for as long
    /// as `r` has not consumed it; and if it has consumed none of them, loans
    /// for different messages are at most a capacity.
    pub open spec fn safe_for(self, r: int) -> bool {
        let c = self.consumers[r];
        &&& c.taken.len() == self.mem.cursor(r)
        &&& c.taken.is_prefix_of(self.stream)
        &&& self.stream.len() == self.mem.header.write_idx
        &&& self.stream.len() - c.taken.len() <= self.mem.capacity()
        &&& c.open.no_duplicates() && self.none_passed(r) ==> c.open.len() <= self.mem.capacity()
        &&& forall|i: int|
            0 <= i < c.open.len() ==> {
                &&& #[trigger] c.open[i] < self.stream.len()
                &&& c.taken.len() <= c.open[i] ==> self.mem.message(c.open[i] as int)
                    == self.stream[c.open[i] as int]
            }
    }
}

/// The invariant is all that the promise needs.
pub proof fn lemma_inv_is_safe<T>(s: System<T>)
    requires
        s.inv(),
    ensures
        s.safe(),
{
    assert forall|r: int| s.mem.participant(r) implies #[trigger] s.safe_for(r) by {
        assert(s.consumer_inv(r));
        assert(s.mem.cursor(r) <= s.mem.header.write_idx);
        let c = s.consumers[r];
        if c.open.no_duplicates() && s.none_passed(r) {
            lemma_distinct_bounded(
                c.open,
                s.mem.cursor(r) as int,
                s.mem.header.write_idx as int,
            );
        }
        assert forall|i: int| 0 <= i < c.open.len() implies #[trigger] c.open[i] < s.stream.len()
            && (c.taken.len() <= c.open[i] ==> s.mem.message(c.open[i] as int)
            == s.stream[c.open[i] as int]) by {
            if c.taken.len() <= c.open[i] {
                lemma_readable(s, r, c.open[i] as int);
            }
        }
    }
}

/// The promise holds in every interleaving: from a ring at rest, whatever
/// pushes, pops, claims, commits, aborts and drops the parties begin, each one
/// at a time, and however their accesses interleave, every state reached is
/// safe.
pub proof fn law_every_interleaving_is_safe<T>(s: System<T>, events: Seq<Event<T>>)
    requires
        s.initial(),
        possible(s, events),
    ensures
        run(s, events).safe(),
        run(s, events).inv(),
    decreases events.len(),
{
    if events.len() == 0 {
        lemma_initial_inv(s);
    } else {
        law_every_interleaving_is_safe(s, events.drop_last());
        lemma_event_keeps_inv(run(s, events.drop_last()), events.last());
    }
    lemma_inv_is_safe(run(s, events));
}

/// No overwrite before the slowest read: in every state reached, when the
/// producer is about to write a slot, no participant has yet to read anything
/// in it, and every participant has advanced far enough to have said so.
pub proof fn law_no_overwrite_before_slowest_read<T>(
    s: System<T>,
    events: Seq<Event<T>>,
    r: int,
    idx: int,
)
    requires
        s.initial(),
        possible(s, events),
        run(s, events).producer matches Producer::Pushing {
            stage: PushStage::WriteSlot { .. },
            ..
        },
        run(s, events).mem.participant(r),
        run(s, events).mem.cursor(r) <= idx < run(s, events).mem.header.write_idx,
    ensures
        ({
            let t = run(s, events);
            let w = t.mem.header.write_idx;
            &&& t.producer matches Producer::Pushing { stage: PushStage::WriteSlot { w: at }, .. }
                && at == w
            &&& t.mem.slot(idx) != t.mem.slot(w as int)
            &&& w - t.mem.cursor(r) < t.mem.capacity()
        }),
{
    law_every_interleaving_is_safe(s, events);
    let t = run(s, events);
    assert(t.room());
    crate::ring::lemma_distinct_slots(idx, t.mem.header.write_idx as int, t.mem.capacity());
}

/// Nothing is lost: what was published stays published and what was consumed
/// stays consumed, whatever happens next.
pub proof fn law_history_only_grows<T>(
    s: System<T>,
    events: Seq<Event<T>>,
    event: Event<T>,
    r: int,
)
    requires
        s.initial(),
        possible(s, events),
        run(s, events).enabled(event),
        run(s, events).mem.participant(r),
    ensures
        ({
            let t = run(s, events);
            let u = t.after(event);
            &&& t.stream.is_prefix_of(u.stream)
            &&& t.consumers[r].taken.is_prefix_of(u.consumers[r].taken)
            &&& t.mem.cursor(r) <= u.mem.cursor(r)
            &&& t.mem.header.write_idx <= u.mem.header.write_idx
        }),
{
    law_every_interleaving_is_safe(s, events);
    let t = run(s, events);
    let u = t.after(event);
    lemma_event_keeps_inv(t, event);
    assert(t.consumer_inv(r));
    assert(t.mem.cursor(r) <= t.mem.header.write_idx);
    assert(u.mem.participant(r));
    assert(u.consumer_inv(r));
    assert(u.mem.cursor(r) <= u.mem.header.write_idx);
    assert(t.stream.is_prefix_of(u.stream));
    assert(t.consumers[r].taken.is_prefix_of(u.consumers[r].taken));
}

/// A loan pins its slot: in every state reached, while it is open and its
/// reader's cursor is not past it, its slot holds the message and the producer
/// is not writing it. When a cursor can pass an open loan is what
/// [`law_loan_is_passed_only_by_its_twin`] says.
pub proof fn law_open_loan_pins_slot<T>(s: System<T>, events: Seq<Event<T>>, r: int, i: int)
    requires
        s.initial(),
        possible(s, events),
        run(s, events).mem.participant(r),
        0 <= i < run(s, events).consumers[r].open.len(),
        run(s, events).mem.cursor(r) <= run(s, events).consumers[r].open[i],
    ensures
        ({
            let t = run(s, events);
            let idx = t.consumers[r].open[i];
            &&& crate::loan::pinned(t.mem, r, idx as int)
            &&& t.mem.message(idx as int) == t.stream[idx as int]
            &&& t.producer matches Producer::Pushing { stage: PushStage::WriteSlot { w }, .. }
                ==> t.mem.slot(w as int) != t.mem.slot(idx as int)
        }),
{
    law_every_interleaving_is_safe(s, events);
    let t = run(s, events);
    let idx = t.consumers[r].open[i] as int;
    assert(t.safe_for(r));
    match t.producer {
        Producer::Pushing { stage: PushStage::WriteSlot { .. }, .. } => {
            law_no_overwrite_before_slowest_read(s, events, r, idx);
        },
        _ => {},
    }
}

/// A claim pins: in every state reached, when a claim reserves an index, the
/// loan that it opens is for a published message that its reader has not
/// consumed.
pub proof fn law_claim_pins<T>(s: System<T>, events: Seq<Event<T>>, r: int, answer: u64)
    requires
        s.initial(),
        possible(s, events),
        run(s, events).enabled(Event::ConsumerStep { r, answer }),
        run(s, events).consumers[r].task matches Task::Claim { stage: ClaimStage::Reserve { .. } },
        answer == 1,
    ensures
        ({
            let t = run(s, events);
            let u = t.after(Event::ConsumerStep { r, answer });
            &&& t.consumers[r].task matches Task::Claim { stage: ClaimStage::Reserve { idx, .. } }
            &&& u.consumers[r].open == t.consumers[r].open.push(idx)
            &&& crate::loan::pinned(u.mem, r, idx as int)
        }),
{
    law_every_interleaving_is_safe(s, events);
    let t = run(s, events);
    assert(t.mem.participant(r));
    assert(t.consumer_inv(r));
}

/// An open loan stays pinned, with one exception: whatever happens next, a
/// cursor that is not past an open loan does not pass it, unless its reader
/// consumes a loan at that very index. Then a loan at that index is no longer
/// open; if it was the only one, no open loan was passed, else its twin was.
pub proof fn law_loan_is_passed_only_by_its_twin<T>(
    s: System<T>,
    events: Seq<Event<T>>,
    event: Event<T>,
    r: int,
    i: int,
)
    requires
        s.initial(),
        possible(s, events),
        run(s, events).enabled(event),
        run(s, events).mem.participant(r),
        0 <= i < run(s, events).consumers[r].open.len(),
        run(s, events).mem.cursor(r) <= run(s, events).consumers[r].open[i],
    ensures
        ({
            let t = run(s, events);
            let u = t.after(event);
            let k = t.consumers[r].open[i];
            ||| u.mem.cursor(r) <= k
            ||| {
                &&& event matches Event::ConsumerStep { r: who, .. }
                &&& who == r
                &&& t.consumers[r].task matches Task::Resolve {
                    index,
                    stage: ResolveStage::Advance,
                    ..
                }
                &&& index == k
                &&& u.consumers[r].open == without(t.consumers[r].open, k)
                &&& sole(t.consumers[r].open, k) ==> !u.consumers[r].open.contains(k)
            }
        }),
{
    law_every_interleaving_is_safe(s, events);
    let t = run(s, events);
    let c = t.consumers[r];
    let k = c.open[i];
    assert(t.consumer_inv(r));
    assert(c.open.contains(k));
    lemma_without(c.open, k);
    assert(t.mem.participant(0));
    assert(t.consumer_inv(0));
    match event {
        Event::ConsumerStep { r: who, .. } => {
            assert(t.mem.participant(who));
            assert(t.consumer_inv(who));
            assert(who as usize == who);
        },
        _ => {},
    }
}

/// No loan is aborted in `events`.
pub open spec fn without_aborts<T>(events: Seq<Event<T>>) -> bool {
    forall|i: int|
        0 <= i < events.len() ==> !(#[trigger] events[i] matches Event::StartResolve {
            mode: ResolveMode::Abort,
            ..
        })
}

impl<T> System<T> {
    /// The open loans of consumer `r` are a stretch of the pipeline: different,
    /// none passed, all before its head. Nothing is about to rewind it.
    pub open spec fn pipelined(self, r: int) -> bool {
        let c = self.consumers[r];
        &&& c.open.no_duplicates()
        &&& self.none_passed(r)
        &&& forall|i: int|
            0 <= i < c.open.len() ==> #[trigger] c.open[i] < c.handle.claim_base[r]
        &&& match c.task {
            Task::Claim { stage: ClaimStage::Reserve { base, idx } } => base <= idx,
            Task::Resolve { mode, stage, .. } => mode !is Abort && stage !is Rewind,
            _ => true,
        }
    }
}

/// Only an abort disturbs the pipeline of a consumer.
proof fn lemma_event_keeps_pipeline<T>(s: System<T>, event: Event<T>, r: int)
    requires
        s.inv(),
        s.enabled(event),
        !(event matches Event::StartResolve { mode: ResolveMode::Abort, .. }),
        s.mem.participant(r),
        s.pipelined(r),
    ensures
        s.after(event).pipelined(r),
{
    let t = s.after(event);
    let c = s.consumers[r];
    let d = t.consumers[r];
    assert(s.consumer_inv(r));
    assert(s.mem.participant(0));
    assert(s.consumer_inv(0));
    match event {
        Event::ConsumerStep { r: who, answer } => {
            assert(s.mem.participant(who));
            assert(s.consumer_inv(who));
            assert(who as usize == who);
            if who == r {
                match c.task {
                    Task::Resolve { index, mode, stage } => {
                        if c.open.contains(index) {
                            let k = c.open.index_of(index);
                            let rest = without(c.open, index);
                            assert(c.open[k] == index);
                            lemma_without(c.open, index);
                            assert(rest.no_duplicates());
                            assert(sole(c.open, index));
                            assert forall|i: int| 0 <= i < rest.len() implies s.mem.cursor(r)
                                <= #[trigger] rest[i] < c.handle.claim_base[r] by {
                                let o = c.open.index_of(rest[i]);
                                assert(c.open[o] == rest[i]);
                            }
                        }
                        assert(d.handle.claim_base == c.handle.claim_base);
                    },
                    Task::Claim { stage } => {
                        assert(t.mem == s.mem);
                        if let ClaimStage::Reserve { idx, .. } = stage {
                            if answer == 1 {
                                assert(d.open == c.open.push(idx));
                                assert(d.handle.claim_base[r] == idx + 1);
                                assert(d.open.no_duplicates());
                            } else {
                                assert(d.handle == c.handle);
                            }
                        } else {
                            assert(d.open == c.open);
                            assert(d.handle.claim_base == c.handle.claim_base);
                        }
                    },
                    _ => {
                        assert(d.open == c.open);
                        assert(d.handle == c.handle);
                    },
                }
            } else {
                assert(d == c);
                assert(t.mem.cursor(r) == s.mem.cursor(r));
            }
        },
        Event::ProducerStep { .. } => {
            assert(d == c);
            assert(t.mem.cursor(r) == s.mem.cursor(r));
        },
        _ => {
            assert(t.mem == s.mem);
            assert(d.open == c.open);
            assert(d.handle == c.handle);
        },
    }
}

/// Without aborts the pipeline of every consumer is in order.
proof fn lemma_pipelined_without_aborts<T>(s: System<T>, events: Seq<Event<T>>, r: int)
    requires
        s.initial(),
        possible(s, events),
        without_aborts(events),
        s.mem.participant(r),
    ensures
        run(s, events).mem.participant(r),
        run(s, events).pipelined(r),
    decreases events.len(),
{
    if events.len() > 0 {
        let before = events.drop_last();
        assert forall|i: int| 0 <= i < before.len() implies !(#[trigger] before[i] matches
            Event::StartResolve { mode: ResolveMode::Abort, .. }) by {
            assert(before[i] == events[i]);
        }
        lemma_pipelined_without_aborts(s, before, r);
        law_every_interleaving_is_safe(s, before);
        assert(events.last() == events[events.len() - 1]);
        lemma_event_keeps_pipeline(run(s, before), events.last(), r);
    }
}

/// Without aborts every open loan is pinned: in every state reached, no cursor
/// is past an open loan of its reader, no message is loaned twice, and the
/// loans of a reader are at most a capacity.
pub proof fn law_loans_stay_pinned_without_aborts<T>(s: System<T>, events: Seq<Event<T>>, r: int)
    requires
        s.initial(),
        possible(s, events),
        without_aborts(events),
        s.mem.participant(r),
    ensures
        ({
            let t = run(s, events);
            let open = t.consumers[r].open;
            &&& open.no_duplicates()
            &&& open.len() <= t.mem.capacity()
            &&& forall|i: int|
                0 <= i < open.len() ==> crate::loan::pinned(t.mem, r, #[trigger] open[i] as int)
        }),
{
    lemma_pipelined_without_aborts(s, events, r);
    law_every_interleaving_is_safe(s, events);
    let t = run(s, events);
    assert(t.safe_for(r));
    assert(t.consumer_inv(r));
}

/// A pop is refused while a loan is open: whatever happened before, a pop that
/// looks at the loan gate goes on only if no loan of its reader is open.
pub proof fn law_open_loan_blocks_pop<T>(
    s: System<T>,
    events: Seq<Event<T>>,
    r: int,
    answer: u64,
)
    requires
        s.initial(),
        possible(s, events),
        run(s, events).enabled(Event::ConsumerStep { r, answer }),
        run(s, events).consumers[r].task == (Task::Pop { stage: PopStage::LoadGate }),
    ensures
        ({
            let t = run(s, events);
            t.after(Event::ConsumerStep { r, answer }).consumers[r].task == (Task::Pop {
                stage: if t.consumers[r].open.len() == 0 {
                    PopStage::LoadWrite
                } else {
                    PopStage::Done { outcome: PopOutcome::Blocked }
                },
            })
        }),
{
    law_every_interleaving_is_safe(s, events);
    let t = run(s, events);
    assert(t.mem.participant(r));
    assert(t.consumer_inv(r));
}

/// A ring in use can be opened in every state reached: whatever happened, its
/// identity, its mask, its number of readers and its length are what they were
/// when it was created.
pub proof fn law_ring_can_be_opened_throughout<T>(s: System<T>, events: Seq<Event<T>>)
    requires
        s.initial(),
        possible(s, events),
    ensures
        ({
            let a = s.mem.header;
            let b = run(s, events).mem.header;
            &&& b.magic == a.magic
            &&& b.version == a.version
            &&& b.capacity_mask == a.capacity_mask
            &&& b.num_readers == a.num_readers
            &&& run(s, events).mem.slots.len() == s.mem.slots.len()
        }),
    decreases events.len(),
{
    if events.len() > 0 {
        let before = events.drop_last();
        law_ring_can_be_opened_throughout(s, before);
        law_every_interleaving_is_safe(s, before);
        let t = run(s, before);
        match events.last() {
            Event::ProducerStep { .. } => {
                lemma_mod_bound(t.mem.header.write_idx as int, t.mem.capacity());
            },
            Event::ConsumerStep { r, .. } => {
                assert(t.mem.participant(r));
                assert(t.consumer_inv(r));
                assert(r as usize == r);
            },
            _ => {},
        }
    }
}

} // verus!
