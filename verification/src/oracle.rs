//! The ring against its specification as queues: whatever sequence of pushes
//! and pops is run, a ring and one bounded queue per participant agree on
//! every outcome.

use vstd::prelude::*;

verus! {

/// One operation on a ring.
pub enum RingOp<T> {
    /// The producer tries to publish `value`.
    Push {
        /// The message.
        value: T,
    },
    /// Participant `reader` tries to consume a message.
    Pop {
        /// The reader.
        reader: int,
    },
}

/// What an operation reports.
pub enum RingOutcome<T> {
    /// Whether the push was accepted.
    Pushed(bool),
    /// The message consumed, if there was one.
    Popped(Option<T>),
}

impl<T> RingOp<T> {
    /// The operation names a participant, if it names a reader.
    pub open spec fn admissible(self, num_readers: int) -> bool {
        self matches RingOp::Pop { reader } ==> 0 <= reader < num_readers
    }

    /// What the ring in state `s` reports.
    pub open spec fn ring_outcome(self, s: crate::ring::RingState<T>) -> RingOutcome<T> {
        match self {
            RingOp::Push { value } => RingOutcome::Pushed(s.has_room()),
            RingOp::Pop { reader } => RingOutcome::Popped(
                if s.cursor(reader) == s.header.write_idx {
                    None
                } else {
                    Some(s.message(s.cursor(reader) as int))
                },
            ),
        }
    }

    /// The ring state after the operation.
    pub open spec fn ring_next(self, s: crate::ring::RingState<T>) -> crate::ring::RingState<T> {
        match self {
            RingOp::Push { value } => if s.has_room() {
                s.pushed(value)
            } else {
                s
            },
            RingOp::Pop { reader } => if s.cursor(reader) == s.header.write_idx {
                s
            } else {
                s.popped(reader)
            },
        }
    }

    /// What the queues `qs`, bounded by `capacity`, report.
    pub open spec fn queue_outcome(self, qs: Seq<Seq<T>>, capacity: int) -> RingOutcome<T> {
        match self {
            RingOp::Push { value } => RingOutcome::Pushed(all_below(qs, capacity)),
            RingOp::Pop { reader } => RingOutcome::Popped(
                if qs[reader].len() == 0 {
                    None
                } else {
                    Some(qs[reader][0])
                },
            ),
        }
    }

    /// The queues after the operation: a push appends to all or to none, a
    /// pop takes the front of one.
    pub open spec fn queue_next(self, qs: Seq<Seq<T>>, capacity: int) -> Seq<Seq<T>> {
        match self {
            RingOp::Push { value } => if all_below(qs, capacity) {
                Seq::new(qs.len(), |r: int| qs[r].push(value))
            } else {
                qs
            },
            RingOp::Pop { reader } => if qs[reader].len() == 0 {
                qs
            } else {
                qs.update(reader, qs[reader].drop_first())
            },
        }
    }
}

/// Every queue holds less than `capacity`.
pub open spec fn all_below<T>(qs: Seq<Seq<T>>, capacity: int) -> bool {
    forall|r: int| 0 <= r < qs.len() ==> (#[trigger] qs[r]).len() < capacity
}

/// The queues that a ring state stands for.
pub open spec fn queues<T>(s: crate::ring::RingState<T>) -> Seq<Seq<T>> {
    Seq::new(s.header.num_readers as nat, |r: int| s.pending(r))
}

/// The ring state after `ops` in a row.
pub open spec fn run_ring<T>(
    s: crate::ring::RingState<T>,
    ops: Seq<RingOp<T>>,
) -> crate::ring::RingState<T>
    decreases ops.len(),
{
    if ops.len() == 0 {
        s
    } else {
        ops.last().ring_next(run_ring(s, ops.drop_last()))
    }
}

/// The queues after `ops` in a row.
pub open spec fn run_queues<T>(
    qs: Seq<Seq<T>>,
    capacity: int,
    ops: Seq<RingOp<T>>,
) -> Seq<Seq<T>>
    decreases ops.len(),
{
    if ops.len() == 0 {
        qs
    } else {
        ops.last().queue_next(run_queues(qs, capacity, ops.drop_last()), capacity)
    }
}

/// One operation: ring and queues report the same and stay in step.
pub proof fn law_operation_matches_queues<T>(s: crate::ring::RingState<T>, op: RingOp<T>)
    requires
        s.consistent(),
        s.header.write_idx < u64::MAX,
        op.admissible(s.header.num_readers as int),
    ensures
        op.ring_outcome(s) == op.queue_outcome(queues(s), s.capacity()),
        queues(op.ring_next(s)) == op.queue_next(queues(s), s.capacity()),
        op.ring_next(s).consistent(),
        op.ring_next(s).capacity() == s.capacity(),
        op.ring_next(s).header.num_readers == s.header.num_readers,
        op.ring_next(s).header.write_idx <= s.header.write_idx + 1,
        op.ring_next(s).header.total_written == s.header.total_written || op is Push,
{
    let qs = queues(s);
    let cap = s.capacity();
    match op {
        RingOp::Push { value } => {
            crate::ring::law_lag_is_longest_queue(s);
            if s.has_room() {
                assert forall|r: int| 0 <= r < qs.len() implies (#[trigger] qs[r]).len() < cap by {
                    assert(s.participant(r));
                    assert(qs[r] == s.pending(r));
                }
                crate::ring::law_push(s, value);
                assert forall|r: int| 0 <= r < qs.len() implies #[trigger] queues(
                    op.ring_next(s),
                )[r] == op.queue_next(qs, cap)[r] by {
                    assert(s.participant(r));
                    assert(s.pushed(value).pending(r) == s.pending(r).push(value));
                }
                assert(queues(op.ring_next(s)) =~= op.queue_next(qs, cap));
            } else {
                let r = choose|r: int|
                    s.participant(r) && (#[trigger] s.pending(r)).len() >= cap;
                assert(qs[r] == s.pending(r));
                assert(!all_below(qs, cap));
            }
        },
        RingOp::Pop { reader } => {
            assert(s.participant(reader));
            assert(qs[reader] == s.pending(reader));
            assert(s.cursor(reader) <= s.header.write_idx);
            if s.cursor(reader) != s.header.write_idx {
                crate::ring::law_pop(s, reader);
                assert forall|r: int| 0 <= r < qs.len() implies #[trigger] queues(
                    op.ring_next(s),
                )[r] == op.queue_next(qs, cap)[r] by {
                    assert(s.participant(r));
                    if r != reader {
                        assert(s.popped(reader).pending(r) == s.pending(r));
                    }
                }
                assert(queues(op.ring_next(s)) =~= op.queue_next(qs, cap));
            }
        },
    }
}

/// Any sequence of operations: ring and queues stay in step throughout, so
/// every reader consumes exactly the published stream, in order, without
/// gaps, duplicates or stale values; the ring is never more than a capacity
/// behind; and the outcome of one more operation is the same on both.
pub proof fn law_ring_matches_queues<T>(
    s: crate::ring::RingState<T>,
    ops: Seq<RingOp<T>>,
    next: RingOp<T>,
)
    requires
        s.consistent(),
        s.header.write_idx + ops.len() < u64::MAX,
        forall|i: int|
            0 <= i < ops.len() ==> (#[trigger] ops[i]).admissible(s.header.num_readers as int),
        next.admissible(s.header.num_readers as int),
    ensures
        queues(run_ring(s, ops)) == run_queues(queues(s), s.capacity(), ops),
        next.ring_outcome(run_ring(s, ops)) == next.queue_outcome(
            run_queues(queues(s), s.capacity(), ops),
            s.capacity(),
        ),
        run_ring(s, ops).consistent(),
        run_ring(s, ops).lag() <= s.capacity(),
        run_ring(s, ops).capacity() == s.capacity(),
        run_ring(s, ops).header.num_readers == s.header.num_readers,
        run_ring(s, ops).header.write_idx <= s.header.write_idx + ops.len(),
    decreases ops.len(),
{
    if ops.len() > 0 {
        let init = ops.drop_last();
        assert forall|i: int| 0 <= i < init.len() implies (#[trigger] init[i]).admissible(
            s.header.num_readers as int,
        ) by {
            assert(init[i] == ops[i]);
        }
        let last = ops.last();
        assert(last == ops[ops.len() - 1]);
        law_ring_matches_queues(s, init, last);
        law_operation_matches_queues(run_ring(s, init), last);
    }
    law_operation_matches_queues(run_ring(s, ops), next);
    crate::ring::law_lag_is_longest_queue(run_ring(s, ops));
}

} // verus!
