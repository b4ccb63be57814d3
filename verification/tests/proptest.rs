//! Model-based property test: a queue oracle drives an arbitrary operation
//! sequence and checks the ring's invariants after every step.

use proptest::strategy::Strategy;
use proptest::test_runner::{Config, TestCaseError, TestRunner};
use shm_rings::{SpmcRingBuffer, MAX_READERS};

/// Fixed small capacity keeps backpressure events frequent.
const CAPACITY: usize = 4;
/// Readers exercised by the model (0..READERS).
const READERS: usize = 2;

#[derive(Debug, Clone)]
enum Op {
    /// Push a byte value.
    Push(u8),
    /// Pop as reader 0..READERS.
    Pop(usize),
    /// Do nothing (varies sequence shape without changing state).
    AdvanceNothing,
}

fn op_strategy() -> impl Strategy<Value = Op> {
    (0..7usize, 0..=u8::MAX, 0..READERS).prop_map(|(pick, byte, reader)| match pick {
        0..=2 => Op::Push(byte),
        3..=5 => Op::Pop(reader),
        _ => Op::AdvanceNothing,
    })
}

fn ensure(ok: bool, what: &str) -> Result<(), TestCaseError> {
    if ok {
        Ok(())
    } else {
        Err(TestCaseError::fail(what.to_string()))
    }
}

fn check(ops: &[Op]) -> Result<(), TestCaseError> {
    let (mut ring, mut mem) =
        SpmcRingBuffer::<u64>::create_new("prop.ring".to_string(), false, CAPACITY, 0).unwrap();
    let mut reader =
        SpmcRingBuffer::<u64>::open_existing("prop.ring".to_string(), &mem).unwrap();

    // Oracle state.
    let mut pushed: Vec<u64> = Vec::new();
    let mut next: [u64; READERS] = [0; READERS]; // per-reader consumed count
    let mut prev_total: u64 = 0;

    for op in ops {
        match op {
            Op::Push(b) => {
                let v = u64::from(*b);
                if ring.try_push(&mut mem, &v) {
                    pushed.push(v);
                } else {
                    // Backpressure must fire exactly at the boundary.
                    ensure(
                        ring.slowest_lag(&mem) == CAPACITY as u64,
                        "backpressure away from the boundary",
                    )?;
                }
            }
            Op::Pop(id) => {
                let got = ring.try_pop(&mut mem, *id).unwrap();
                if (next[*id] as usize) < pushed.len() {
                    // This reader's cursor still points at a live slot, so it
                    // must observe exactly the oracle's next value.
                    ensure(
                        got == Some(pushed[next[*id] as usize]),
                        "a stale, torn or lapped value",
                    )?;
                    next[*id] += 1;
                } else {
                    ensure(got.is_none(), "saw a value the oracle never pushed")?;
                }
            }
            Op::AdvanceNothing => {}
        }

        // Invariant: total_written is monotone.
        let total = ring.total_written(&mem);
        ensure(total >= prev_total, "total_written regressed")?;
        prev_total = total;

        // Invariant: the producer is never allowed to outrun the slowest
        // reader by more than the capacity.
        ensure(
            ring.slowest_lag(&mem) <= CAPACITY as u64,
            "slowest_lag exceeded capacity",
        )?;
    }

    // Final per-reader FIFO check over all cursors: readers 0..READERS were
    // driven by ops, the rest sat at 0 and must observe the entire stream.
    for id in 0..MAX_READERS {
        let mut consumed = next.get(id).copied().unwrap_or(0);
        while let Some(v) = reader.try_pop(&mut mem, id).unwrap() {
            ensure(
                (consumed as usize) < pushed.len(),
                "consumed more than was pushed",
            )?;
            ensure(v == pushed[consumed as usize], "FIFO violated at tail")?;
            consumed += 1;
        }
        ensure(consumed as usize == pushed.len(), "stopped short")?;
    }
    Ok(())
}

#[test]
fn model_based_ops_match_vecdeque_oracle() {
    let mut runner = TestRunner::new(Config::with_cases(500));
    runner
        .run(&proptest::collection::vec(op_strategy(), 0..64), |ops| {
            check(&ops)
        })
        .unwrap();
}

#[test]
fn generated_sequences_have_useful_shape() {
    // Sanity: the strategy actually produces all op kinds within the
    // documented size bounds.
    let mut runner = TestRunner::new(Config::default());
    runner
        .run(&proptest::collection::vec(op_strategy(), 16..64), |ops| {
            let pushes = ops.iter().filter(|o| matches!(o, Op::Push(_))).count();
            let pops = ops.iter().filter(|o| matches!(o, Op::Pop(_))).count();
            ensure(pushes + pops > 0, "nothing but idling")?;
            ensure(ops.len() < 64, "too long")
        })
        .unwrap();
}

#[test]
fn full_stream_of_one_reader_matches_the_oracle_for_long() {
    let (mut ring, mut mem) =
        SpmcRingBuffer::<u64>::create_new_with_readers("long.ring".to_string(), false, 4, 1, 0)
            .unwrap();
    let mut sent = 0u64;
    let mut got = 0u64;
    while got < 10_000 {
        while ring.try_push(&mut mem, &(sent * 7)) {
            sent += 1;
        }
        assert_eq!(ring.slowest_lag(&mem), 4);
        while let Some(v) = ring.try_pop(&mut mem, 0).unwrap() {
            assert_eq!(v, got * 7);
            got += 1;
        }
    }
    assert_eq!(ring.total_written(&mem), sent);
}
