//! Small concurrent programs over a ring, run under a schedule.
//!
//! A [`Scenario`] is a ring in use together with the threads that use it and a
//! notify counter. A [`Tick`] gives one thread its turn, in which it makes one
//! memory access or begins its next operation. [`Stage`] runs scenarios;
//! [`crate::loom_ring`] proves things of particular ones, whatever the
//! schedule.

use vstd::prelude::*;

use crate::interleaving::{Event, Producer, System, Task};
use crate::protocol::{Access, PopStage, PushStage, ResolveMode, Word};
use crate::simulator::Simulator;

verus! {

/// One turn of a schedule.
#[derive(Debug, Clone, Copy)]
pub struct Tick {
    /// Whose turn it is, modulo the number of threads.
    pub who: usize,
    /// How far out of date the loads of this turn may be.
    pub behind: u64,
}

/// Where a [`Borrower`] is.
#[derive(Debug, Clone, Copy, PartialEq, Eq, Structural)]
pub enum Borrowing {
    /// Claiming its first loan.
    ClaimFirst,
    /// Claiming a second one while the first is open.
    ClaimSecond,
    /// Committing the second before the first.
    CommitSecond,
    /// Giving the second up.
    DropSecond,
    /// Committing the first.
    CommitFirst,
    /// Finished.
    Finished,
}

/// Where a [`Sleeper`] is.
#[derive(Debug, Clone, Copy, PartialEq, Eq, Structural)]
pub enum Sleeping {
    /// Looking at the ring.
    Look,
    /// The ring looked empty; reading the notify counter.
    ReadCounter,
    /// Parked until the counter moves.
    Spin,
    /// Woken; looking at the ring again.
    WokenLook,
    /// Finished.
    Finished,
}

/// A thread that pushes 1, 2, ... up to `limit`, each at most `attempts`
/// times, and gives up at the first that it cannot push.
#[derive(Debug, Clone, Copy)]
pub struct Writer {
    /// The last message to push.
    pub limit: u64,
    /// Attempts per message.
    pub attempts: usize,
    /// Attempts left for the next message.
    pub left: usize,
    /// Messages pushed.
    pub pushed: u64,
    /// Whether it has yet to bump the notify counter when it is through.
    pub notifies: bool,
}

/// A thread that pops a number of times as consumer `id` and checks that it
/// gets 1, 2, ... in order.
#[derive(Debug, Clone, Copy)]
pub struct Reader {
    /// The consumer.
    pub id: usize,
    /// Pops left to make.
    pub left: usize,
    /// Messages got.
    pub seen: u64,
    /// Whether each was the one after the one before.
    pub in_order: bool,
}

/// A thread that, as consumer 0, borrows a message, tries to borrow another
/// and to commit that one first, then commits the one it has.
#[derive(Debug, Clone, Copy)]
pub struct Borrower {
    /// Where it is.
    pub at: Borrowing,
    /// Attempts left to claim the first loan.
    pub left: usize,
    /// Stream index and message of the first loan.
    pub first: Option<(u64, u64)>,
    /// Stream index of the second loan.
    pub second: Option<u64>,
    /// Whether the commit out of order was refused.
    pub refused: bool,
    /// Whether the first loan was committed.
    pub committed: bool,
}

/// A thread that pops one message as consumer 0, parking on the notify
/// counter while the ring looks empty.
#[derive(Debug, Clone, Copy)]
pub struct Sleeper {
    /// Where it is.
    pub at: Sleeping,
    /// Looks left before it gives up.
    pub left: usize,
    /// Loads of the counter per park.
    pub patience: usize,
    /// Loads of the counter left in this park.
    pub spins: usize,
    /// The counter as last seen.
    pub seen: u64,
    /// The message it got.
    pub got: Option<u64>,
    /// Whether it was woken.
    pub woken: bool,
}

/// A thread.
#[derive(Debug, Clone, Copy)]
pub enum Thread {
    /// See [`Writer`].
    Writer(Writer),
    /// See [`Reader`].
    Reader(Reader),
    /// See [`Borrower`].
    Borrower(Borrower),
    /// See [`Sleeper`].
    Sleeper(Sleeper),
}

/// Consumer `r` of `s` after its next access.
pub open spec fn consumer_stepped(s: System<u64>, r: int, behind: u64) -> System<u64> {
    s.after(
        Event::ConsumerStep { r, answer: crate::simulator::consumer_answer(s, r, behind) },
    )
}

impl Writer {
    /// The thread is through.
    pub open spec fn done(self, s: System<u64>) -> bool {
        &&& s.producer.resting()
        &&& self.left == 0 || self.pushed >= self.limit
        &&& !self.notifies
    }

    /// The thread, the ring and the counter after its turn.
    pub open spec fn turned(self, s: System<u64>, notify: u64, behind: u64) -> (
        Writer,
        System<u64>,
        u64,
    ) {
        if !s.producer.resting() {
            let t = s.after(
                Event::ProducerStep { answer: crate::simulator::producer_answer(s, behind) },
            );
            if crate::simulator::last_push(t) == Some(true) {
                (
                    Writer {
                        left: self.attempts,
                        pushed: crate::ring::succ(self.pushed),
                        ..self
                    },
                    t,
                    notify,
                )
            } else {
                (self, t, notify)
            }
        } else if self.left > 0 && self.pushed < self.limit {
            (
                Writer { left: (self.left - 1) as usize, ..self },
                s.after(Event::StartPush { value: crate::ring::succ(self.pushed) }),
                notify,
            )
        } else {
            (Writer { notifies: false, ..self }, s, crate::ring::succ(notify))
        }
    }

    /// The thread may take its turn.
    pub open spec fn ready(self, s: System<u64>) -> bool {
        &&& s.mem.header.write_idx < u64::MAX
        &&& !s.producer.resting() ==> self.pushed < self.limit
    }

    fn is_done(&self, sim: &Simulator<u64>) -> (r: bool)
        requires
            sim.wf(),
        ensures
            r == self.done(sim@),
    {
        sim.producer_resting() && (self.left == 0 || self.pushed >= self.limit) && !self.notifies
    }

    fn turn(self, sim: &mut Simulator<u64>, notify: u64, behind: u64) -> (r: (Self, u64))
        requires
            old(sim).wf(),
            self.ready(old(sim)@),
        ensures
            final(sim).wf(),
            (r.0, final(sim)@, r.1) == self.turned(old(sim)@, notify, behind),
    {
        let mut next = self;
        if !sim.producer_resting() {
            sim.step_producer(behind);
            match sim.push_outcome() {
                Some(true) => {
                    next.left = self.attempts;
                    next.pushed = self.pushed.wrapping_add(1);
                },
                _ => {},
            }
            (next, notify)
        } else if self.left > 0 && self.pushed < self.limit {
            next.left = self.left - 1;
            sim.start_push(self.pushed.wrapping_add(1));
            (next, notify)
        } else {
            next.notifies = false;
            (next, notify.wrapping_add(1))
        }
    }
}

impl Reader {
    /// The thread is through.
    pub open spec fn done(self, s: System<u64>) -> bool {
        s.consumers[self.id as int].task.resting() && self.left == 0
    }

    /// The thread and the ring after its turn.
    pub open spec fn turned(self, s: System<u64>, behind: u64) -> (Reader, System<u64>) {
        let id = self.id as int;
        if s.consumers[id].task.resting() {
            (Reader { left: (self.left - 1) as usize, ..self }, s.after(Event::StartPop { r: id }))
        } else {
            let t = consumer_stepped(s, id, behind);
            match crate::simulator::popped_by(t, id) {
                Some(v) => (
                    Reader {
                        seen: crate::ring::succ(self.seen),
                        in_order: self.in_order && v == crate::ring::succ(self.seen),
                        ..self
                    },
                    t,
                ),
                None => (self, t),
            }
        }
    }

    /// The thread may take its turn.
    pub open spec fn ready(self, s: System<u64>) -> bool {
        self.id < s.consumers.len()
    }

    fn is_done(&self, sim: &Simulator<u64>) -> (r: bool)
        requires
            sim.wf(),
            self.ready(sim@),
        ensures
            r == self.done(sim@),
    {
        self.left == 0 && sim.resting(self.id)
    }

    fn turn(self, sim: &mut Simulator<u64>, behind: u64) -> (r: Self)
        requires
            old(sim).wf(),
            self.ready(old(sim)@),
            !self.done(old(sim)@),
        ensures
            final(sim).wf(),
            (r, final(sim)@) == self.turned(old(sim)@, behind),
    {
        let mut next = self;
        if sim.resting(self.id) {
            next.left = self.left - 1;
            sim.start_pop(self.id);
        } else {
            sim.step_consumer(self.id, behind);
            match sim.popped(self.id) {
                Some(v) => {
                    next.seen = self.seen.wrapping_add(1);
                    next.in_order = self.in_order && v == next.seen;
                },
                None => {},
            }
        }
        next
    }
}

impl Borrower {
    /// The thread is through.
    pub open spec fn done(self) -> bool {
        self.at is Finished
    }

    /// The thread after an operation of its own ended, leaving `t`.
    pub open spec fn noted(self, t: System<u64>) -> Borrower {
        match self.at {
            Borrowing::ClaimFirst => match crate::simulator::claimed_by(t, 0) {
                Some(idx) => Borrower {
                    at: Borrowing::ClaimSecond,
                    first: Some((idx, t.mem.message(idx as int))),
                    ..self
                },
                None => self,
            },
            Borrowing::ClaimSecond => match crate::simulator::claimed_by(t, 0) {
                Some(idx) => Borrower { at: Borrowing::CommitSecond, second: Some(idx), ..self },
                None => Borrower { at: Borrowing::CommitFirst, ..self },
            },
            Borrowing::CommitSecond => Borrower {
                at: Borrowing::DropSecond,
                refused: !crate::simulator::resolved_by(t, 0),
                ..self
            },
            Borrowing::DropSecond => Borrower { at: Borrowing::CommitFirst, ..self },
            Borrowing::CommitFirst => Borrower {
                at: Borrowing::Finished,
                committed: crate::simulator::resolved_by(t, 0),
                ..self
            },
            Borrowing::Finished => self,
        }
    }

    /// The thread and the ring after its turn.
    pub open spec fn turned(self, s: System<u64>, behind: u64) -> (Borrower, System<u64>) {
        if !s.consumers[0].task.resting() {
            let t = consumer_stepped(s, 0, behind);
            if t.consumers[0].task.resting() {
                (self.noted(t), t)
            } else {
                (self, t)
            }
        } else {
            match self.at {
                Borrowing::ClaimFirst => if self.left == 0 {
                    (Borrower { at: Borrowing::Finished, ..self }, s)
                } else {
                    (
                        Borrower { left: (self.left - 1) as usize, ..self },
                        s.after(Event::StartClaim { r: 0 }),
                    )
                },
                Borrowing::ClaimSecond => (self, s.after(Event::StartClaim { r: 0 })),
                Borrowing::CommitSecond => (
                    self,
                    s.after(
                        Event::StartResolve { r: 0, index: 1, mode: ResolveMode::Commit },
                    ),
                ),
                Borrowing::DropSecond => (
                    self,
                    s.after(Event::StartResolve { r: 0, index: 1, mode: ResolveMode::Drop }),
                ),
                Borrowing::CommitFirst => (
                    self,
                    s.after(
                        Event::StartResolve { r: 0, index: 0, mode: ResolveMode::Commit },
                    ),
                ),
                Borrowing::Finished => (self, s),
            }
        }
    }

    /// The thread may take its turn: the loan it is about to resolve is open.
    pub open spec fn ready(self, s: System<u64>) -> bool {
        let open = s.consumers[0].open;
        &&& 0 < s.consumers.len()
        &&& open.len() < u64::MAX
        &&& s.consumers[0].task.resting() ==> match self.at {
            Borrowing::CommitSecond => open.contains(1),
            Borrowing::DropSecond => open.contains(1),
            Borrowing::CommitFirst => open.contains(0),
            _ => true,
        }
    }

    fn is_done(&self) -> (r: bool)
        ensures
            r == self.done(),
    {
        match self.at {
            Borrowing::Finished => true,
            _ => false,
        }
    }

    fn note(self, sim: &Simulator<u64>) -> (r: Self)
        requires
            sim.wf(),
            0 < sim@.consumers.len(),
        ensures
            r == self.noted(sim@),
    {
        let mut next = self;
        match self.at {
            Borrowing::ClaimFirst => match sim.claimed(0) {
                Some(idx) => {
                    next.at = Borrowing::ClaimSecond;
                    next.first = Some((idx, sim.message(idx)));
                },
                None => {},
            },
            Borrowing::ClaimSecond => match sim.claimed(0) {
                Some(idx) => {
                    next.at = Borrowing::CommitSecond;
                    next.second = Some(idx);
                },
                None => {
                    next.at = Borrowing::CommitFirst;
                },
            },
            Borrowing::CommitSecond => {
                next.at = Borrowing::DropSecond;
                next.refused = !sim.resolved(0);
            },
            Borrowing::DropSecond => {
                next.at = Borrowing::CommitFirst;
            },
            Borrowing::CommitFirst => {
                next.at = Borrowing::Finished;
                next.committed = sim.resolved(0);
            },
            Borrowing::Finished => {},
        }
        next
    }

    fn turn(self, sim: &mut Simulator<u64>, behind: u64) -> (r: Self)
        requires
            old(sim).wf(),
            self.ready(old(sim)@),
            !self.done(),
        ensures
            final(sim).wf(),
            (r, final(sim)@) == self.turned(old(sim)@, behind),
    {
        if !sim.resting(0) {
            sim.step_consumer(0, behind);
            if sim.resting(0) {
                self.note(sim)
            } else {
                self
            }
        } else {
            let mut next = self;
            match self.at {
                Borrowing::ClaimFirst => {
                    if self.left == 0 {
                        next.at = Borrowing::Finished;
                    } else {
                        next.left = self.left - 1;
                        sim.start_claim(0);
                    }
                },
                Borrowing::ClaimSecond => {
                    sim.start_claim(0);
                },
                Borrowing::CommitSecond => {
                    sim.start_resolve(0, 1, ResolveMode::Commit);
                },
                Borrowing::DropSecond => {
                    sim.start_resolve(0, 1, ResolveMode::Drop);
                },
                Borrowing::CommitFirst => {
                    sim.start_resolve(0, 0, ResolveMode::Commit);
                },
                Borrowing::Finished => {},
            }
            next
        }
    }
}

/// A counter that is at `notify`, as a load up to `behind` out of date sees
/// it, but never older than `seen`.
pub open spec fn stale_counter(notify: u64, behind: u64, seen: u64) -> u64 {
    if notify - behind >= seen {
        (notify - behind) as u64
    } else {
        seen
    }
}

impl Sleeper {
    /// The thread is through.
    pub open spec fn done(self) -> bool {
        self.at is Finished
    }

    /// How far out of date the write index may look to a woken thread: it has
    /// acquired the counter, and the producer bumped that after it published,
    /// so at least one message is visible.
    pub open spec fn limited(s: System<u64>, behind: u64) -> u64 {
        if s.mem.header.write_idx - behind >= 1 {
            behind
        } else {
            (s.mem.header.write_idx - 1) as u64
        }
    }

    /// The thread and the ring after its turn.
    pub open spec fn turned(self, s: System<u64>, notify: u64, behind: u64) -> (
        Sleeper,
        System<u64>,
    ) {
        let resting = s.consumers[0].task.resting();
        match self.at {
            Sleeping::Look => if !resting {
                let t = consumer_stepped(s, 0, behind);
                if !t.consumers[0].task.resting() {
                    (self, t)
                } else {
                    match crate::simulator::popped_by(t, 0) {
                        Some(v) => (Sleeper { at: Sleeping::Finished, got: Some(v), ..self }, t),
                        None => (Sleeper { at: Sleeping::ReadCounter, ..self }, t),
                    }
                }
            } else if self.left == 0 {
                (Sleeper { at: Sleeping::Finished, ..self }, s)
            } else {
                (
                    Sleeper { left: (self.left - 1) as usize, ..self },
                    s.after(Event::StartPop { r: 0 }),
                )
            },
            Sleeping::ReadCounter => (
                Sleeper {
                    at: Sleeping::Spin,
                    seen: stale_counter(notify, behind, self.seen),
                    spins: self.patience,
                    ..self
                },
                s,
            ),
            Sleeping::Spin => if self.spins == 0 {
                (Sleeper { at: Sleeping::Look, ..self }, s)
            } else {
                let now = stale_counter(notify, behind, self.seen);
                if now != self.seen {
                    (
                        Sleeper {
                            at: Sleeping::WokenLook,
                            spins: (self.spins - 1) as usize,
                            seen: now,
                            woken: true,
                            ..self
                        },
                        s,
                    )
                } else {
                    (Sleeper { spins: (self.spins - 1) as usize, ..self }, s)
                }
            },
            Sleeping::WokenLook => if resting {
                (self, s.after(Event::StartPop { r: 0 }))
            } else {
                let t = consumer_stepped(s, 0, Self::limited(s, behind));
                if !t.consumers[0].task.resting() {
                    (self, t)
                } else {
                    (
                        Sleeper {
                            at: Sleeping::Finished,
                            got: crate::simulator::popped_by(t, 0),
                            ..self
                        },
                        t,
                    )
                }
            },
            Sleeping::Finished => (self, s),
        }
    }

    /// The thread may take its turn.
    pub open spec fn ready(self, s: System<u64>) -> bool {
        &&& 0 < s.consumers.len()
        &&& self.at is WokenLook ==> s.mem.header.write_idx >= 1
        &&& self.at is ReadCounter || self.at is Spin ==> s.consumers[0].task.resting()
    }

    fn is_done(&self) -> (r: bool)
        ensures
            r == self.done(),
    {
        match self.at {
            Sleeping::Finished => true,
            _ => false,
        }
    }

    fn load_counter(&self, notify: u64, behind: u64) -> (r: u64)
        ensures
            r == stale_counter(notify, behind, self.seen),
    {
        if behind <= notify && notify - behind >= self.seen {
            notify - behind
        } else {
            self.seen
        }
    }

    fn turn(self, sim: &mut Simulator<u64>, notify: u64, behind: u64) -> (r: Self)
        requires
            old(sim).wf(),
            self.ready(old(sim)@),
            !self.done(),
        ensures
            final(sim).wf(),
            (r, final(sim)@) == self.turned(old(sim)@, notify, behind),
    {
        let mut next = self;
        match self.at {
            Sleeping::Look => {
                if !sim.resting(0) {
                    sim.step_consumer(0, behind);
                    if sim.resting(0) {
                        match sim.popped(0) {
                            Some(v) => {
                                next.got = Some(v);
                                next.at = Sleeping::Finished;
                            },
                            None => {
                                next.at = Sleeping::ReadCounter;
                            },
                        }
                    }
                } else if self.left == 0 {
                    next.at = Sleeping::Finished;
                } else {
                    next.left = self.left - 1;
                    sim.start_pop(0);
                }
            },
            Sleeping::ReadCounter => {
                next.at = Sleeping::Spin;
                next.seen = self.load_counter(notify, behind);
                next.spins = self.patience;
            },
            Sleeping::Spin => {
                if self.spins == 0 {
                    next.at = Sleeping::Look;
                } else {
                    next.spins = self.spins - 1;
                    let now = self.load_counter(notify, behind);
                    if now != self.seen {
                        next.at = Sleeping::WokenLook;
                        next.seen = now;
                        next.woken = true;
                    }
                }
            },
            Sleeping::WokenLook => {
                if sim.resting(0) {
                    sim.start_pop(0);
                } else {
                    let oldest = sim.write_idx() - 1;
                    sim.step_consumer(
                        0,
                        if behind <= oldest {
                            behind
                        } else {
                            oldest
                        },
                    );
                    if sim.resting(0) {
                        next.got = sim.popped(0);
                        next.at = Sleeping::Finished;
                    }
                }
            },
            Sleeping::Finished => {},
        }
        next
    }
}

impl Thread {
    /// The thread is through.
    pub open spec fn done(self, s: System<u64>) -> bool {
        match self {
            Thread::Writer(t) => t.done(s),
            Thread::Reader(t) => t.done(s),
            Thread::Borrower(t) => t.done(),
            Thread::Sleeper(t) => t.done(),
        }
    }

    /// The thread, the ring and the counter after its turn.
    #[verifier::opaque]
    pub open spec fn turned(self, s: System<u64>, notify: u64, behind: u64) -> (
        Thread,
        System<u64>,
        u64,
    ) {
        match self {
            Thread::Writer(t) => {
                let (next, after, counter) = t.turned(s, notify, behind);
                (Thread::Writer(next), after, counter)
            },
            Thread::Reader(t) => {
                let (next, after) = t.turned(s, behind);
                (Thread::Reader(next), after, notify)
            },
            Thread::Borrower(t) => {
                let (next, after) = t.turned(s, behind);
                (Thread::Borrower(next), after, notify)
            },
            Thread::Sleeper(t) => {
                let (next, after) = t.turned(s, notify, behind);
                (Thread::Sleeper(next), after, notify)
            },
        }
    }

    /// The thread may take its turn.
    pub open spec fn ready(self, s: System<u64>) -> bool {
        match self {
            Thread::Writer(t) => t.ready(s),
            Thread::Reader(t) => t.ready(s),
            Thread::Borrower(t) => t.ready(s),
            Thread::Sleeper(t) => t.ready(s),
        }
    }

    /// Who the thread acts as: a consumer, or -1 for the producer.
    pub open spec fn party(self) -> int {
        match self {
            Thread::Writer(_) => -1,
            Thread::Reader(t) => t.id as int,
            _ => 0,
        }
    }

    /// What a thread has left to do, most significant part first.
    spec fn rest(self, s: System<u64>) -> (nat, nat, nat, nat) {
        let resting = s.consumers[self.party()].task.resting();
        let work = crate::simulator::consumer_work(s, self.party());
        match self {
            Thread::Writer(t) => (
                if t.notifies {
                    1
                } else {
                    0
                },
                if t.pushed < t.limit {
                    (t.limit - t.pushed) as nat
                } else {
                    0
                },
                t.left as nat,
                crate::simulator::producer_work(s),
            ),
            Thread::Reader(t) => (0, 0, t.left as nat, work),
            Thread::Borrower(t) => (
                0,
                match t.at {
                    Borrowing::ClaimFirst => 5,
                    Borrowing::ClaimSecond => 4,
                    Borrowing::CommitSecond => 3,
                    Borrowing::DropSecond => 2,
                    Borrowing::CommitFirst => 1,
                    Borrowing::Finished => 0,
                },
                if t.at is ClaimFirst {
                    if resting {
                        2 * t.left as nat
                    } else {
                        2 * t.left as nat + 1
                    }
                } else if resting {
                    1
                } else {
                    0
                },
                work,
            ),
            Thread::Sleeper(t) => (
                t.left as nat,
                match t.at {
                    Sleeping::Look => if resting {
                        1
                    } else {
                        4
                    },
                    Sleeping::ReadCounter => 3,
                    Sleeping::Spin => 2,
                    Sleeping::WokenLook => if resting {
                        1
                    } else {
                        0
                    },
                    Sleeping::Finished => 0,
                },
                t.spins as nat,
                work,
            ),
        }
    }

    fn is_done(&self, sim: &Simulator<u64>) -> (r: bool)
        requires
            sim.wf(),
            self.party() < sim@.consumers.len(),
        ensures
            r == self.done(sim@),
    {
        match self {
            Thread::Writer(t) => t.is_done(sim),
            Thread::Reader(t) => t.is_done(sim),
            Thread::Borrower(t) => t.is_done(),
            Thread::Sleeper(t) => t.is_done(),
        }
    }

    fn turn(self, sim: &mut Simulator<u64>, notify: u64, behind: u64) -> (r: (Self, u64))
        requires
            old(sim).wf(),
            self.ready(old(sim)@),
            !self.done(old(sim)@),
        ensures
            final(sim).wf(),
            (r.0, final(sim)@, r.1) == self.turned(old(sim)@, notify, behind),
    {
        reveal(Thread::turned);
        match self {
            Thread::Writer(t) => {
                let (next, counter) = t.turn(sim, notify, behind);
                (Thread::Writer(next), counter)
            },
            Thread::Reader(t) => (Thread::Reader(t.turn(sim, behind)), notify),
            Thread::Borrower(t) => (Thread::Borrower(t.turn(sim, behind)), notify),
            Thread::Sleeper(t) => (Thread::Sleeper(t.turn(sim, notify, behind)), notify),
        }
    }
}

/// A turn leaves less to do.
proof fn lemma_turn_progresses(t: Thread, s: System<u64>, notify: u64, behind: u64)
    requires
        s.inv(),
        t.ready(s),
        !t.done(s),
    ensures
        ({
            let (next, after, _) = t.turned(s, notify, behind);
            let a = t.rest(s);
            let b = next.rest(after);
            decreases_to!(a.0, a.1, a.2, a.3 => b.0, b.1, b.2, b.3)
        }),
{
    reveal(Thread::turned);
    let who = t.party();
    if who < 0 {
        if !s.producer.resting() {
            crate::simulator::lemma_producer_work(s, behind);
        }
    } else if !s.consumers[who].task.resting() {
        crate::simulator::lemma_consumer_work(s, who, behind);
        if t is Sleeper {
            crate::simulator::lemma_consumer_work(s, who, Sleeper::limited(s, behind));
        }
    }
}

/// A turn of one party leaves the other parties where they are.
proof fn lemma_turn_is_own(t: Thread, s: System<u64>, notify: u64, behind: u64, other: Thread)
    requires
        t.ready(s),
        other.party() != t.party(),
        other.party() < s.consumers.len(),
        other.done(s),
    ensures
        other.done(t.turned(s, notify, behind).1),
        t.turned(s, notify, behind).0.party() == t.party(),
        t.turned(s, notify, behind).1.consumers.len() == s.consumers.len(),
{
    reveal(Thread::turned);
}

/// A reader's turn is one event of its consumer: the beginning of a pop, which
/// is one less to make, or an access of the pop in progress. It counts a
/// message exactly when its consumer took one, and finds it in order exactly
/// if it is the number after the one before.
pub proof fn law_reader_turn_is_an_event(rd: Reader, s: System<u64>, behind: u64)
    requires
        s.inv(),
        rd.id < s.consumers.len(),
        s.consumers[rd.id as int].task is Idle || s.consumers[rd.id as int].task is Pop,
        !(s.consumers[rd.id as int].task.resting() && rd.left == 0),
        rd.seen < u64::MAX,
    ensures
        ({
            let id = rd.id as int;
            let (x, t) = rd.turned(s, behind);
            let took = t.consumers[id].taken.len() - s.consumers[id].taken.len();
            &&& x.id == rd.id
            &&& s.consumers[id].task.resting() ==> {
                &&& t == s.after(Event::StartPop { r: id })
                &&& x.left == rd.left - 1
            }
            &&& !s.consumers[id].task.resting() ==> {
                &&& exists|answer: u64| #[trigger]
                    s.enabled(Event::ConsumerStep { r: id, answer }) && t == s.after(
                        Event::ConsumerStep { r: id, answer },
                    )
                &&& x.left == rd.left
            }
            &&& x.seen == rd.seen + took
            &&& x.in_order <==> rd.in_order && (took == 1 ==> t.consumers[id].taken.last()
                == x.seen)
        }),
{
    let id = rd.id as int;
    let c = s.consumers[id];
    assert(s.mem.participant(id));
    assert(s.consumer_inv(id));
    assert(s.mem.cursor(id) <= s.mem.header.write_idx);
    let (x, t) = rd.turned(s, behind);
    if !c.task.resting() {
        let answer = crate::simulator::consumer_answer(s, id, behind);
        let event = Event::<u64>::ConsumerStep { r: id, answer };
        assert(s.enabled(event));
        assert(t == s.after(event));
        let d = t.consumers[id];
        match c.task {
            Task::Pop { stage } => match stage {
                PopStage::Advance { .. } => {
                    assert(d.taken == c.taken.push(c.held->Some_0));
                    assert(d.held == c.held);
                },
                _ => {
                    assert(d.taken == c.taken);
                },
            },
            _ => {},
        }
    }
}

/// A writer's turn is one event of the producer: the beginning of a push of
/// the next number, which is one attempt less, or an access of the push in
/// progress. It counts a message exactly when a push has gone through, and then
/// has all attempts again. When it is through with its messages, its turn is
/// the signal, once.
pub proof fn law_writer_turn_is_an_event(w: Writer, s: System<u64>, notify: u64, behind: u64)
    requires
        s.inv(),
        s.mem.header.write_idx < u64::MAX,
        w.pushed < u64::MAX,
        notify < u64::MAX,
    ensures
        ({
            let (x, t, n) = w.turned(s, notify, behind);
            &&& x.limit == w.limit
            &&& x.attempts == w.attempts
            &&& s.producer.resting() && w.left > 0 && w.pushed < w.limit ==> {
                &&& t == s.after(Event::StartPush { value: (w.pushed + 1) as u64 })
                &&& x == (Writer { left: (w.left - 1) as usize, ..w })
                &&& n == notify
            }
            &&& !s.producer.resting() ==> {
                let through = t.producer matches Producer::Pushing {
                    stage: PushStage::Done { pushed: true },
                    ..
                };
                &&& exists|answer: u64| #[trigger]
                    s.enabled(Event::ProducerStep { answer }) && t == s.after(
                        Event::ProducerStep { answer },
                    )
                &&& through ==> x == (Writer {
                    left: w.attempts,
                    pushed: (w.pushed + 1) as u64,
                    ..w
                })
                &&& !through ==> x == w
                &&& n == notify
            }
            &&& s.producer.resting() && !(w.left > 0 && w.pushed < w.limit) ==> {
                &&& t == s
                &&& x == (Writer { notifies: false, ..w })
                &&& n == notify + 1
            }
        }),
{
    if !s.producer.resting() {
        let answer = crate::simulator::producer_answer(s, behind);
        let event = Event::<u64>::ProducerStep { answer };
        assert(s.mem.participant(0));
        assert(s.enabled(event)) by {
            match s.producer {
                Producer::Pushing { stage: PushStage::Scan { next, .. }, .. } => {
                    assert(s.mem.participant(next as int));
                },
                _ => {},
            }
        }
        assert(w.turned(s, notify, behind).1 == s.after(event));
    }
}

/// A borrower never idles: at rest it begins a claim or the resolution of a
/// loan, unless it is through or out of attempts, and then it is through; else
/// its turn is one access of its consumer. It is through for good.
pub proof fn law_borrower_turn_is_an_event(b: Borrower, s: System<u64>, behind: u64)
    requires
        s.inv(),
        b.ready(s),
    ensures
        ({
            let (x, t) = b.turned(s, behind);
            let resting = s.consumers[0].task.resting();
            &&& !resting ==> exists|answer: u64| #[trigger]
                s.enabled(Event::ConsumerStep { r: 0, answer }) && t == s.after(
                    Event::ConsumerStep { r: 0, answer },
                )
            &&& resting && b.at is ClaimFirst && b.left == 0 ==> x.at is Finished && t == s
            &&& resting && (b.at is ClaimFirst && b.left > 0 || b.at is ClaimSecond) ==> {
                &&& s.enabled(Event::StartClaim { r: 0 })
                &&& t == s.after(Event::StartClaim { r: 0 })
                &&& x.at == b.at
            }
            &&& resting && (b.at is CommitSecond || b.at is DropSecond) ==> {
                let mode = if b.at is CommitSecond {
                    ResolveMode::Commit
                } else {
                    ResolveMode::Drop
                };
                let event = Event::<u64>::StartResolve { r: 0, index: 1, mode };
                s.enabled(event) && t == s.after(event) && x == b
            }
            &&& resting && b.at is CommitFirst ==> {
                let event = Event::<u64>::StartResolve {
                    r: 0,
                    index: 0,
                    mode: ResolveMode::Commit,
                };
                s.enabled(event) && t == s.after(event) && x == b
            }
            &&& resting && b.at is Finished ==> x == b && t == s
            &&& t.consumers[0].open.len() > s.consumers[0].open.len() && b.at is ClaimFirst ==> {
                let idx = t.consumers[0].open.last();
                &&& x.first == Some((idx, t.mem.slots[idx as int % t.mem.capacity()]))
                &&& x.at is ClaimSecond
            }
            &&& t.consumers[0].open.len() > s.consumers[0].open.len() && b.at is ClaimSecond ==> {
                &&& x.second == Some(t.consumers[0].open.last())
                &&& x.at is CommitSecond
            }
        }),
{
    assert(s.mem.participant(0));
    assert(s.consumer_inv(0));
    assert(s.mem.cursor(0) <= s.mem.header.write_idx);
    if !s.consumers[0].task.resting() {
        let answer = crate::simulator::consumer_answer(s, 0, behind);
        let event = Event::<u64>::ConsumerStep { r: 0, answer };
        assert(s.enabled(event));
        assert(b.turned(s, behind).1 == s.after(event));
        if let Task::Resolve { index, .. } = s.consumers[0].task {
            if s.consumers[0].open.contains(index) {
                let k = s.consumers[0].open.index_of(index);
                assert(s.consumers[0].open[k] == index);
            }
        }
    }
}

/// A sleeper looks when it may, wakes when the counter has moved, and looks
/// again when it is woken; what it got is what its consumer took.
pub proof fn law_sleeper_turn(z: Sleeper, s: System<u64>, notify: u64, behind: u64)
    requires
        s.inv(),
        z.ready(s),
        s.consumers[0].task is Idle || s.consumers[0].task is Pop,
    ensures
        ({
            let (x, t) = z.turned(s, notify, behind);
            let resting = s.consumers[0].task.resting();
            let took = t.consumers[0].taken.len() - s.consumers[0].taken.len();
            &&& z.at is Look && resting && z.left > 0 || z.at is WokenLook && resting ==> t
                == s.after(Event::StartPop { r: 0 }) && x.at == z.at
            &&& z.at is Look && resting && z.left == 0 ==> x.at is Finished && t == s
            &&& (z.at is Look || z.at is WokenLook) && !resting ==> exists|answer: u64| #[trigger]
                s.enabled(Event::ConsumerStep { r: 0, answer }) && t == s.after(
                    Event::ConsumerStep { r: 0, answer },
                )
            &&& (z.at is Look || z.at is WokenLook) && took == 1 ==> {
                &&& x.at is Finished
                &&& x.got == Some(t.consumers[0].taken.last())
            }
            &&& took == 0 || took == 1
            &&& z.at is Look && took == 0 ==> x.got == z.got
            &&& z.at is Spin && z.spins > 0 && notify > z.seen && behind == 0 ==> {
                &&& x.woken
                &&& x.at is WokenLook
                &&& x.seen == notify
            }
            &&& z.at is Spin && z.spins > 0 && notify == z.seen ==> !(x.at is WokenLook)
            &&& z.at is ReadCounter && behind == 0 && notify >= z.seen ==> x.at is Spin && x.seen
                == notify && x.spins == z.patience
        }),
{
    assert(s.mem.participant(0));
    assert(s.consumer_inv(0));
    assert(s.mem.cursor(0) <= s.mem.header.write_idx);
    let (x, t) = z.turned(s, notify, behind);
    let c = s.consumers[0];
    if !c.task.resting() && (z.at is Look || z.at is WokenLook) {
        let limit = if z.at is Look {
            behind
        } else {
            Sleeper::limited(s, behind)
        };
        let answer = crate::simulator::consumer_answer(s, 0, limit);
        let event = Event::<u64>::ConsumerStep { r: 0, answer };
        assert(s.enabled(event));
        assert(t == s.after(event));
        let d = t.consumers[0];
        match c.task {
            Task::Pop { stage } => match stage {
                PopStage::Advance { .. } => {
                    assert(d.taken == c.taken.push(c.held->Some_0));
                    assert(d.held == c.held);
                },
                _ => {
                    assert(d.taken == c.taken);
                },
            },
            _ => {},
        }
    }
}

/// How out of date a turn's loads are: of the words of others, no more than the
/// turn allows, and not at all if it allows nothing.
pub proof fn law_turns_see_recent_words(s: System<u64>, r: int, behind: u64)
    requires
        s.inv(),
        0 <= r < s.consumers.len(),
    ensures
        s.consumers[r].access(s.mem.capacity(), r) matches Access::Load { word: Word::WriteIdx, .. }
            ==> {
            let seen = crate::simulator::consumer_answer(s, r, behind);
            &&& seen <= s.mem.header.write_idx <= seen + behind
            &&& seen >= s.mem.header.read_indices[r]
        },
        s.producer matches Producer::Pushing { stage: PushStage::Scan { next, .. }, .. } ==> {
            let seen = crate::simulator::producer_answer(s, behind);
            seen <= s.mem.header.read_indices[next as int] <= seen + behind
        },
{
    assert(s.mem.participant(r));
    assert(s.mem.cursor(r) <= s.mem.header.write_idx);
}

/// A ring, a counter, and the threads that use them.
pub struct Scenario {
    /// The ring.
    pub system: System<u64>,
    /// The notify counter.
    pub notify: u64,
    /// The threads.
    pub threads: Seq<Thread>,
}

impl Scenario {
    /// The scenario after a tick. A thread that is through has no turns.
    pub open spec fn turned(self, tick: Tick) -> Self {
        let k = tick.who as int % self.threads.len() as int;
        if self.threads[k].done(self.system) {
            self
        } else {
            let (next, system, notify) = self.threads[k].turned(
                self.system,
                self.notify,
                tick.behind,
            );
            Scenario { system, notify, threads: self.threads.update(k, next) }
        }
    }

    /// Every thread is through.
    pub open spec fn settled(self) -> bool {
        forall|k: int|
            0 <= k < self.threads.len() ==> (#[trigger] self.threads[k]).done(self.system)
    }

    /// Every thread acts as a party of its own that exists, and may take its
    /// turn.
    pub open spec fn ready(self) -> bool {
        &&& self.system.inv()
        &&& forall|k: int|
            0 <= k < self.threads.len() ==> {
                let t = #[trigger] self.threads[k];
                &&& t.party() < self.system.consumers.len()
                &&& !t.done(self.system) ==> t.ready(self.system)
            }
        &&& forall|j: int, k: int|
            0 <= j < k < self.threads.len() ==> (#[trigger] self.threads[j]).party() != (
            #[trigger] self.threads[k]).party()
    }
}

/// The scenario after `ticks` in a row.
pub open spec fn run(start: Scenario, ticks: Seq<Tick>) -> Scenario
    decreases ticks.len(),
{
    if ticks.len() == 0 {
        start
    } else {
        run(start, ticks.drop_last()).turned(ticks.last())
    }
}

/// Whatever the schedule, every thread may take its turn when it comes.
pub open spec fn always_ready(start: Scenario) -> bool {
    forall|ticks: Seq<Tick>| (#[trigger] run(start, ticks)).ready()
}

/// `count` turns of one thread, with up-to-date loads.
pub open spec fn turns_of(who: int, count: nat) -> Seq<Tick> {
    Seq::new(count, |i: int| Tick { who: who as usize, behind: 0 })
}

/// So many turns of the first thread, then so many of the second, and so on.
pub open spec fn closing(counts: Seq<nat>) -> Seq<Tick>
    decreases counts.len(),
{
    if counts.len() == 0 {
        Seq::empty()
    } else {
        closing(counts.drop_last()) + turns_of(counts.len() - 1, counts.last())
    }
}

/// A tick gives one thread its turn, the one it names, unless that is through;
/// no other thread is touched.
pub proof fn law_tick_gives_one_thread_its_turn(f: Scenario, tick: Tick)
    requires
        f.threads.len() > 0,
    ensures
        ({
            let k = tick.who as int % f.threads.len() as int;
            let g = f.turned(tick);
            &&& g.threads.len() == f.threads.len()
            &&& forall|j: int|
                0 <= j < f.threads.len() && j != k ==> #[trigger] g.threads[j] == f.threads[j]
            &&& match f.threads[k] {
                Thread::Writer(w) => if w.done(f.system) {
                    g == f
                } else {
                    let (x, t, n) = w.turned(f.system, f.notify, tick.behind);
                    g.threads[k] == Thread::Writer(x) && g.system == t && g.notify == n
                },
                Thread::Reader(rd) => if rd.done(f.system) {
                    g == f
                } else {
                    let (x, t) = rd.turned(f.system, tick.behind);
                    g.threads[k] == Thread::Reader(x) && g.system == t && g.notify == f.notify
                },
                Thread::Borrower(b) => if b.done() {
                    g == f
                } else {
                    let (x, t) = b.turned(f.system, tick.behind);
                    g.threads[k] == Thread::Borrower(x) && g.system == t && g.notify == f.notify
                },
                Thread::Sleeper(z) => if z.done() {
                    g == f
                } else {
                    let (x, t) = z.turned(f.system, f.notify, tick.behind);
                    g.threads[k] == Thread::Sleeper(x) && g.system == t && g.notify == f.notify
                },
            }
        }),
{
    reveal(Thread::turned);
    vstd::arithmetic::div_mod::lemma_mod_bound(tick.who as int, f.threads.len() as int);
}

/// A thread is through exactly when it has nothing left to do: no operation in
/// progress and no attempts, messages or signal to go.
pub proof fn law_threads_finish_their_work(
    w: Writer,
    rd: Reader,
    b: Borrower,
    z: Sleeper,
    s: System<u64>,
)
    ensures
        w.done(s) <==> s.producer.resting() && (w.left == 0 || w.pushed >= w.limit) && !w.notifies,
        rd.done(s) <==> s.consumers[rd.id as int].task.resting() && rd.left == 0,
        b.done() <==> b.at is Finished,
        z.done() <==> z.at is Finished,
{
}

/// One more tick.
proof fn lemma_run_push(start: Scenario, ticks: Seq<Tick>, tick: Tick)
    ensures
        run(start, ticks.push(tick)) == run(start, ticks).turned(tick),
{
    assert(ticks.push(tick).drop_last() =~= ticks);
}

/// A scenario on stage.
pub struct Stage {
    sim: Simulator<u64>,
    notify: u64,
    threads: Vec<Thread>,
}

impl View for Stage {
    type V = Scenario;

    closed spec fn view(&self) -> Scenario {
        Scenario { system: self.sim@, notify: self.notify, threads: self.threads@ }
    }
}

impl Stage {
    /// The stage is in a state that satisfies the invariant of the protocol.
    pub closed spec fn wf(self) -> bool {
        self.sim.wf()
    }

    /// A scenario about to begin.
    pub fn new(sim: Simulator<u64>, threads: Vec<Thread>) -> (r: Self)
        requires
            sim.wf(),
        ensures
            r.wf(),
            r@ == (Scenario { system: sim@, notify: 0, threads: threads@ }),
    {
        Stage { sim, notify: 0, threads }
    }

    /// Gives a thread its turn.
    pub fn turn(&mut self, tick: Tick)
        requires
            old(self).wf(),
            old(self)@.ready(),
            old(self)@.threads.len() > 0,
        ensures
            final(self).wf(),
            final(self)@ == old(self)@.turned(tick),
    {
        let k = tick.who % self.threads.len();
        let thread = self.threads[k];
        assert(thread == self@.threads[k as int]);
        if !thread.is_done(&self.sim) {
            let (next, notify) = thread.turn(&mut self.sim, self.notify, tick.behind);
            self.notify = notify;
            self.threads[k] = next;
        }
    }

    /// Runs the scenario under `schedule`, then every thread to its end, one
    /// after the other.
    pub(crate) fn play(&mut self, schedule: &Vec<Tick>) -> (counts: Ghost<Seq<nat>>)
        requires
            old(self).wf(),
            always_ready(old(self)@),
            old(self)@.threads.len() > 0,
        ensures
            final(self).wf(),
            counts@.len() == old(self)@.threads.len(),
            final(self)@ == run(old(self)@, schedule@ + closing(counts@)),
            final(self)@.settled(),
    {
        let ghost start = self@;
        let mut i: usize = 0;
        assert(schedule@.take(0) =~= Seq::<Tick>::empty());
        while i < schedule.len()
            invariant
                i <= schedule@.len(),
                self.wf(),
                always_ready(start),
                start.threads.len() > 0,
                self@.threads.len() == start.threads.len(),
                self@ == run(start, schedule@.take(i as int)),
            decreases schedule@.len() - i,
        {
            let tick = schedule[i];
            self.turn(tick);
            proof {
                lemma_run_push(start, schedule@.take(i as int), tick);
                assert(schedule@.take(i as int).push(tick) =~= schedule@.take(i + 1));
            }
            i += 1;
        }
        let ghost mut counts: Seq<nat> = Seq::empty();
        let mut k: usize = 0;
        proof {
            assert(schedule@.take(i as int) =~= schedule@);
            assert(schedule@ + closing(counts) =~= schedule@);
        }
        while k < self.threads.len()
            invariant
                k <= self@.threads.len(),
                self.wf(),
                self.threads@ == self@.threads,
                always_ready(start),
                start.threads.len() > 0,
                self@.threads.len() == start.threads.len(),
                counts.len() == k,
                self@ == run(start, schedule@ + closing(counts)),
                forall|j: int| 0 <= j < k ==> (#[trigger] self@.threads[j]).done(self@.system),
            decreases self@.threads.len() - k,
        {
            let ghost base = schedule@ + closing(counts);
            let ghost mut n: nat = 0;
            assert(base + turns_of(k as int, 0) =~= base);
            while !self.threads[k].is_done(&self.sim)
                invariant
                    k < self@.threads.len(),
                    self.wf(),
                    self.threads@ == self@.threads,
                    self.sim.wf(),
                    self.sim@ == self@.system,
                    always_ready(start),
                    start.threads.len() > 0,
                    self@.threads.len() == start.threads.len(),
                    self@ == run(start, base + turns_of(k as int, n)),
                    self@.ready(),
                    forall|j: int| 0 <= j < k ==> (#[trigger] self@.threads[j]).done(self@.system),
                decreases
                        self@.threads[k as int].rest(self@.system).0,
                        self@.threads[k as int].rest(self@.system).1,
                        self@.threads[k as int].rest(self@.system).2,
                        self@.threads[k as int].rest(self@.system).3,
            {
                let ghost before = self@;
                let ghost thread = self@.threads[k as int];
                let tick = Tick { who: k, behind: 0 };
                self.turn(tick);
                proof {
                    lemma_turn_progresses(thread, before.system, before.notify, 0);
                    assert(k as int % before.threads.len() as int == k) by {
                        vstd::arithmetic::div_mod::lemma_small_mod(k as nat, before.threads.len());
                    }
                    assert forall|j: int| 0 <= j < k implies (#[trigger] self@.threads[j]).done(
                        self@.system,
                    ) by {
                        assert(before.threads[j].done(before.system));
                        lemma_turn_is_own(
                            thread,
                            before.system,
                            before.notify,
                            0,
                            before.threads[j],
                        );
                    }
                    lemma_run_push(start, base + turns_of(k as int, n), tick);
                    assert((base + turns_of(k as int, n)).push(tick) =~= base + turns_of(
                        k as int,
                        n + 1,
                    ));
                    n = n + 1;
                }
            }
            proof {
                let more = counts.push(n);
                assert(more.drop_last() =~= counts);
                assert(schedule@ + closing(more) =~= base + turns_of(k as int, n));
                counts = more;
            }
            k += 1;
        }
        Ghost(counts)
    }

    /// Thread number `k`.
    pub fn thread(&self, k: usize) -> (r: Thread)
        requires
            k < self@.threads.len(),
        ensures
            r == self@.threads[k as int],
    {
        self.threads[k]
    }

    /// Pushes counted so far.
    pub fn total_written(&self) -> (r: u64)
        requires
            self.wf(),
        ensures
            r == self@.system.mem.header.total_written,
    {
        self.sim.total_written()
    }
}

} // verus!
