//! The operations as machines: run alone they do what the operations do, and
//! they can be interleaved.

use shm_rings::header::ByteOrder;
use shm_rings::protocol::{
    perform, Access, ClaimOp, MemOrder, PopOp, PushOp, ResolveMode, ResolveOp, Word,
};
use shm_rings::ring::RingMemory;
use shm_rings::simulator::Simulator;
use shm_rings::{ShmRingError, SpmcRingBuffer};

type U64Ring = SpmcRingBuffer<u64>;

fn ring(capacity: usize, readers: usize) -> (U64Ring, RingMemory<u64>) {
    U64Ring::create_new_with_readers("machine.ring".to_string(), false, capacity, readers, 0)
        .unwrap()
}

fn push(ring: &mut U64Ring, mem: &mut RingMemory<u64>, value: u64) -> bool {
    let mut op = PushOp::new(ring.capacity());
    loop {
        match op.access() {
            Access::Done => return op.outcome().unwrap(),
            Access::WriteSlot { slot } => {
                mem.slots[slot] = value;
                op.advance(0);
            }
            access => {
                let answer = perform(mem, ring, access);
                op.advance(answer);
            }
        }
    }
}

fn pop(
    ring: &mut U64Ring,
    mem: &mut RingMemory<u64>,
    reader: usize,
) -> Result<Option<u64>, ShmRingError> {
    let mut op = PopOp::new(ring.capacity(), reader);
    let mut held = None;
    loop {
        match op.access() {
            Access::Done => return op.result(held),
            Access::ReadSlot { slot } => {
                held = Some(mem.slots[slot]);
                op.advance(0);
            }
            access => {
                let answer = perform(mem, ring, access);
                op.advance(answer);
            }
        }
    }
}

fn claim(
    ring: &mut U64Ring,
    mem: &mut RingMemory<u64>,
    reader: usize,
) -> Result<Option<u64>, ShmRingError> {
    let mut op = ClaimOp::new(reader);
    loop {
        match op.access() {
            Access::Done => return op.result(),
            access => {
                let answer = perform(mem, ring, access);
                op.advance(answer);
            }
        }
    }
}

fn resolve(
    ring: &mut U64Ring,
    mem: &mut RingMemory<u64>,
    reader: usize,
    index: u64,
    mode: ResolveMode,
) -> Result<(), ShmRingError> {
    let mut op = ResolveOp::new(reader, index, mode);
    loop {
        match op.access() {
            Access::Done => return op.result(),
            access => {
                let answer = perform(mem, ring, access);
                op.advance(answer);
            }
        }
    }
}

#[test]
fn machines_run_alone_agree_with_the_operations() {
    let (mut a, mut mem_a) = ring(4, 2);
    let (mut b, mut mem_b) = ring(4, 2);
    let mut state = 5u64;
    for i in 0..2000u64 {
        state = state
            .wrapping_mul(6364136223846793005)
            .wrapping_add(1442695040888963407);
        match (state >> 33) % 3 {
            0 => assert_eq!(push(&mut a, &mut mem_a, i), b.try_push(&mut mem_b, &i)),
            r => {
                let reader = r as usize - 1;
                assert_eq!(
                    pop(&mut a, &mut mem_a, reader).unwrap(),
                    b.try_pop(&mut mem_b, reader).unwrap()
                );
            }
        }
        assert_eq!(
            mem_a.header.to_bytes(ByteOrder::Little),
            mem_b.header.to_bytes(ByteOrder::Little)
        );
        assert_eq!(mem_a.slots, mem_b.slots);
    }
    assert!(matches!(
        pop(&mut a, &mut mem_a, 2),
        Err(ShmRingError::InvalidReaderId { id: 2, max: 1 })
    ));
}

#[test]
fn loan_machines_agree_with_loans() {
    let (mut r, mut mem) = ring(4, 1);
    assert_eq!(claim(&mut r, &mut mem, 0).unwrap(), None);
    assert!(push(&mut r, &mut mem, 10));
    assert!(push(&mut r, &mut mem, 11));
    assert_eq!(claim(&mut r, &mut mem, 0).unwrap(), Some(0));
    assert_eq!(claim(&mut r, &mut mem, 0).unwrap(), Some(1));
    assert!(matches!(
        pop(&mut r, &mut mem, 0),
        Err(ShmRingError::LoanOutstanding { reader_id: 0 })
    ));
    assert!(matches!(
        resolve(&mut r, &mut mem, 0, 1, ResolveMode::Commit),
        Err(ShmRingError::LoanNotAtCursor {
            index: 1,
            cursor: 0
        })
    ));
    resolve(&mut r, &mut mem, 0, 1, ResolveMode::Abort).unwrap();
    assert_eq!(claim(&mut r, &mut mem, 0).unwrap(), Some(1));
    resolve(&mut r, &mut mem, 0, 0, ResolveMode::Commit).unwrap();
    resolve(&mut r, &mut mem, 0, 1, ResolveMode::Drop).unwrap();
    assert_eq!(pop(&mut r, &mut mem, 0).unwrap(), None);
    assert_eq!(r.len(&mem, 0).unwrap(), 0);
    assert!(matches!(
        claim(&mut r, &mut mem, 1),
        Err(ShmRingError::InvalidReaderId { id: 1, max: 0 })
    ));
}

#[test]
fn publish_and_reclaim_edges_are_release_and_acquire() {
    let (mut r, mut mem) = ring(4, 1);
    let mut op = PushOp::new(4);
    let mut seen = Vec::new();
    loop {
        let access = op.access();
        match access {
            Access::Done => break,
            Access::WriteSlot { slot } => {
                mem.slots[slot] = 1;
                op.advance(0);
            }
            _ => {
                let answer = perform(&mut mem, &mut r, access);
                op.advance(answer);
            }
        }
        seen.push(access);
    }
    assert_eq!(
        seen,
        vec![
            Access::Load {
                word: Word::WriteIdx,
                order: MemOrder::Relaxed
            },
            Access::Load {
                word: Word::NumReaders,
                order: MemOrder::Acquire
            },
            Access::Load {
                word: Word::ReadIdx { reader: 0 },
                order: MemOrder::Acquire
            },
            Access::WriteSlot { slot: 0 },
            Access::Store {
                word: Word::WriteIdx,
                value: 1,
                order: MemOrder::Release
            },
            Access::Increment {
                word: Word::TotalWritten,
                order: MemOrder::Relaxed
            },
        ]
    );
}

#[test]
fn push_in_progress_is_invisible_until_published() {
    let mut sim = Simulator::<u64>::new(2, 1, 0).unwrap();
    assert_eq!(sim.consumer_count(), 1);
    sim.start_push(9);
    // Up to the slot write nothing is published.
    for _ in 0..4 {
        sim.step_producer(0);
    }
    assert_eq!(sim.write_idx(), 0);
    sim.start_pop(0);
    while !sim.resting(0) {
        sim.step_consumer(0, 0);
    }
    assert_eq!(sim.popped(0), None);
    while !sim.producer_resting() {
        sim.step_producer(0);
    }
    assert_eq!(sim.push_outcome(), Some(true));
    assert_eq!(sim.message(0), 9);
    sim.start_pop(0);
    while !sim.resting(0) {
        sim.step_consumer(0, 0);
    }
    assert_eq!(sim.popped(0), Some(9));
    assert_eq!(sim.total_written(), 1);
}

#[test]
fn stale_loads_only_delay() {
    let mut sim = Simulator::<u64>::new(1, 1, 0).unwrap();
    sim.start_push(1);
    while !sim.producer_resting() {
        sim.step_producer(0);
    }
    // A consumer that sees an old write index finds nothing yet.
    sim.start_pop(0);
    while !sim.resting(0) {
        sim.step_consumer(0, 1);
    }
    assert_eq!(sim.popped(0), None);
    sim.start_pop(0);
    while !sim.resting(0) {
        sim.step_consumer(0, 0);
    }
    assert_eq!(sim.popped(0), Some(1));
    // A producer that sees an old cursor is refused, and succeeds later.
    sim.start_push(2);
    while !sim.producer_resting() {
        sim.step_producer(1);
    }
    assert_eq!(sim.push_outcome(), Some(false));
    sim.start_push(2);
    while !sim.producer_resting() {
        sim.step_producer(0);
    }
    assert_eq!(sim.push_outcome(), Some(true));
}

#[test]
fn simulators_need_a_ring() {
    assert!(Simulator::<u64>::new(3, 1, 0).is_none());
    assert!(Simulator::<u64>::new(0, 1, 0).is_none());
    assert!(Simulator::<u64>::new(2, 0, 0).is_none());
    assert!(Simulator::<u64>::new(2, 9, 0).is_none());
}

#[test]
fn racing_claims_reserve_different_messages() {
    let (mut r, mut mem) = ring(4, 1);
    assert!(push(&mut r, &mut mem, 10));
    assert!(push(&mut r, &mut mem, 11));
    let mut a = ClaimOp::new(0);
    let mut b = ClaimOp::new(0);
    // Both get as far as the reservation before either makes it.
    for _ in 0..5 {
        let access = a.access();
        a.advance(perform(&mut mem, &mut r, access));
        let access = b.access();
        b.advance(perform(&mut mem, &mut r, access));
    }
    for op in [&mut a, &mut b] {
        loop {
            match op.access() {
                Access::Done => break,
                access => {
                    let answer = perform(&mut mem, &mut r, access);
                    op.advance(answer);
                }
            }
        }
    }
    assert_eq!(a.result().unwrap(), Some(0));
    assert_eq!(b.result().unwrap(), Some(1));
}

fn run_consumer(sim: &mut Simulator<u64>) {
    while !sim.resting(0) {
        sim.step_consumer(0, 0);
    }
}

#[test]
fn loans_behind_an_aborted_one_stay_pinned() {
    let mut sim = Simulator::<u64>::new(2, 1, 0).unwrap();
    for v in [5, 6] {
        sim.start_push(v);
        while !sim.producer_resting() {
            sim.step_producer(0);
        }
    }
    sim.start_claim(0);
    run_consumer(&mut sim);
    assert_eq!(sim.claimed(0), Some(0));
    sim.start_claim(0);
    run_consumer(&mut sim);
    assert_eq!(sim.claimed(0), Some(1));
    sim.start_resolve(0, 0, ResolveMode::Abort);
    run_consumer(&mut sim);
    assert!(sim.resolved(0));
    // A pop is refused: the second loan is still open.
    sim.start_pop(0);
    run_consumer(&mut sim);
    assert_eq!(sim.popped(0), None);
    // The aborted message is claimed again and committed, then the second.
    sim.start_claim(0);
    run_consumer(&mut sim);
    assert_eq!(sim.claimed(0), Some(0));
    sim.start_resolve(0, 0, ResolveMode::Commit);
    run_consumer(&mut sim);
    assert!(sim.resolved(0));
    // There is room for one, and it does not touch the open loan.
    sim.start_push(7);
    while !sim.producer_resting() {
        sim.step_producer(0);
    }
    assert_eq!(sim.push_outcome(), Some(true));
    assert_eq!(sim.message(1), 6);
    sim.start_push(8);
    while !sim.producer_resting() {
        sim.step_producer(0);
    }
    assert_eq!(sim.push_outcome(), Some(false));
    sim.start_resolve(0, 1, ResolveMode::Drop);
    run_consumer(&mut sim);
    sim.start_pop(0);
    run_consumer(&mut sim);
    assert_eq!(sim.popped(0), Some(7));
}

#[test]
fn consuming_one_of_two_loans_at_an_index_leaves_the_ring_sound() {
    let mut sim = Simulator::<u64>::new(2, 2, 0).unwrap();
    let push = |sim: &mut Simulator<u64>, v: u64| {
        sim.start_push(v);
        while !sim.producer_resting() {
            sim.step_producer(0);
        }
        sim.push_outcome().unwrap()
    };
    assert!(push(&mut sim, 5));
    assert!(push(&mut sim, 6));
    for index in 0..2 {
        sim.start_claim(0);
        run_consumer(&mut sim);
        assert_eq!(sim.claimed(0), Some(index));
    }
    sim.start_resolve(0, 0, ResolveMode::Abort);
    run_consumer(&mut sim);
    // Both are claimed again, the second beside the loan still open on it, and
    // both are committed.
    for index in 0..2 {
        sim.start_claim(0);
        run_consumer(&mut sim);
        assert_eq!(sim.claimed(0), Some(index));
        sim.start_resolve(0, index, ResolveMode::Commit);
        run_consumer(&mut sim);
        assert!(sim.resolved(0));
    }
    // The other reader still holds the producer back.
    assert!(!push(&mut sim, 7));
    for expected in [5, 6] {
        sim.start_pop(1);
        while !sim.resting(1) {
            sim.step_consumer(1, 0);
        }
        assert_eq!(sim.popped(1), Some(expected));
    }
    assert!(push(&mut sim, 7));
    assert!(push(&mut sim, 8));
    assert!(!push(&mut sim, 9));
    // The loan left behind is un-pinned: its slot has a later message.
    assert_eq!(sim.message(1), 8);
    // It cannot be committed, and dropping it consumes nothing.
    sim.start_resolve(0, 1, ResolveMode::Commit);
    run_consumer(&mut sim);
    assert!(!sim.resolved(0));
    sim.start_resolve(0, 1, ResolveMode::Drop);
    run_consumer(&mut sim);
    for expected in [7, 8] {
        sim.start_pop(0);
        run_consumer(&mut sim);
        assert_eq!(sim.popped(0), Some(expected));
    }
}

#[test]
fn machines_stall_and_refuse_on_damaged_headers() {
    let (mut a, mut mem) = ring(2, 1);
    for poison in [1, u64::MAX] {
        mem.header.set_read_idx(0, poison);
        assert!(!push(&mut a, &mut mem, 5), "cursor {poison}");
        assert_eq!(mem.header.write_idx(), 0);
    }
    mem.header.set_read_idx(0, 0);
    assert!(push(&mut a, &mut mem, 5));

    mem.header.num_readers = 0;
    assert!(!push(&mut a, &mut mem, 6));
    assert!(matches!(
        pop(&mut a, &mut mem, 0),
        Err(ShmRingError::InvalidReaderId { id: 0, max: 0 })
    ));
    assert!(matches!(
        claim(&mut a, &mut mem, 4),
        Err(ShmRingError::InvalidReaderId { id: 4, max: 0 })
    ));

    // More participants than cursors: a reader with a cursor still pops.
    mem.header.num_readers = 9;
    assert_eq!(pop(&mut a, &mut mem, 0).unwrap(), Some(5));
    assert!(matches!(
        pop(&mut a, &mut mem, 9),
        Err(ShmRingError::InvalidReaderId { id: 9, max: 8 })
    ));
}
