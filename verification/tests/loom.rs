//! The modelled scenarios, under many schedules.

use shm_rings::loom_ring::{
    model_backpressure_boundary, model_fanout_two_readers,
    model_loan_pins_cursor_against_backpressure, model_notify_no_lost_wakeup, LoomRing,
};
use shm_rings::scenario::Tick;

/// Every schedule of `len` turns of `threads` threads with up-to-date loads,
/// each turn taken `stride` times.
fn all_schedules(threads: usize, len: u32, stride: usize) -> Vec<Vec<Tick>> {
    let count = threads.pow(len);
    (0..count)
        .map(|mut code| {
            let mut ticks = Vec::new();
            for _ in 0..len {
                for _ in 0..stride {
                    ticks.push(Tick {
                        who: code % threads,
                        behind: 0,
                    });
                }
                code /= threads;
            }
            ticks
        })
        .collect()
}

/// Long schedules without a pattern, with loads that may be out of date.
fn wild_schedules(threads: usize, count: u64) -> Vec<Vec<Tick>> {
    (0..count)
        .map(|seed| {
            let mut state = seed.wrapping_mul(0x9E37_79B9_7F4A_7C15) + 1;
            (0..200)
                .map(|_| {
                    state = state
                        .wrapping_mul(6364136223846793005)
                        .wrapping_add(1442695040888963407);
                    Tick {
                        who: (state >> 33) as usize % threads,
                        behind: (state >> 50) % 3,
                    }
                })
                .collect()
        })
        .collect()
}

fn schedules(threads: usize) -> Vec<Vec<Tick>> {
    let len = if threads == 2 { 9 } else { 6 };
    let mut all = all_schedules(threads, len, 1);
    all.extend(all_schedules(threads, len, 3));
    all.extend(all_schedules(threads, len, 8));
    all.extend(wild_schedules(threads, 500));
    all
}

#[test]
fn loom_fanout_two_readers_no_overwrite_before_slowest_read() {
    let mut most = 0;
    for schedule in schedules(3) {
        let r = model_fanout_two_readers(&schedule);
        assert!(r.in_order, "out-of-stream value under {schedule:?}");
        assert!(r.total_written >= 1);
        assert_eq!(r.total_written, r.pushed);
        assert!(r.first <= r.pushed && r.second <= r.pushed);
        most = most.max(r.total_written);
    }
    assert_eq!(most, 3, "some schedule lets all three through");
    // Undisturbed, the producer fills the ring and both readers drain it.
    let r = model_fanout_two_readers(&Vec::new());
    assert_eq!((r.first, r.second, r.pushed), (2, 2, 2));
}

#[test]
fn loom_backpressure_boundary_never_crossed_without_reader_advance() {
    let mut popped = 0;
    for schedule in schedules(2) {
        let r = model_backpressure_boundary(&schedule);
        assert!(r.popped == 0 || (r.popped == 1 && r.in_order));
        if r.third {
            assert_eq!(r.popped, 1, "push crossed the boundary without a reader advance");
        }
        assert_eq!(r.total_written, 2);
        popped = popped.max(r.popped);
    }
    assert_eq!(popped, 1, "some schedule lets the reader see the message");
}

#[test]
fn loom_loan_pins_cursor_against_producer_and_rejects_out_of_order_commit() {
    let mut third = false;
    let mut second = false;
    for schedule in schedules(2) {
        let r = model_loan_pins_cursor_against_backpressure(&schedule);
        if let Some((index, value)) = r.first {
            assert_eq!(index, 0, "first claim is stream index 0");
            assert_eq!(value, 1, "loan views the first message");
            assert!(r.committed, "in-order commit must succeed");
        }
        if let Some(index) = r.second {
            assert_eq!(index, 1);
            assert!(r.out_of_order_refused, "out-of-order commit must be rejected");
            second = true;
        }
        assert!(r.total_written >= 2);
        if r.total_written == 3 {
            assert!(r.committed, "the third push needs the commit");
            third = true;
        }
    }
    assert!(second, "some schedule pipelines two loans");
    assert!(third, "some schedule lets the third push through");
}

#[test]
fn loom_notify_handshake_woken_consumer_always_sees_the_message() {
    let mut woken = false;
    let mut direct = false;
    for schedule in schedules(2) {
        let r = model_notify_no_lost_wakeup(&schedule);
        assert_eq!(r.total_written, 1);
        if r.woken {
            assert_eq!(r.got, Some(1), "woken by notify but message not visible");
            woken = true;
        } else if let Some(v) = r.got {
            assert_eq!(v, 1, "out-of-stream value");
            direct = true;
        }
    }
    assert!(woken, "some schedule parks the consumer");
    assert!(direct, "some schedule hits directly");
}

#[test]
fn small_ring_in_memory() {
    let mut ring = LoomRing::with_readers(2);
    assert!(ring.try_push(1));
    assert!(ring.try_push(2));
    assert!(!ring.try_push(3));
    assert_eq!(ring.total_written(), 2);
    assert_eq!(ring.try_pop(0), Some(1));
    assert!(!ring.try_push(3), "the other reader has not moved");
    assert_eq!(ring.try_pop(1), Some(1));
    assert!(ring.try_push(3));
    assert_eq!(ring.try_pop(0), Some(2));
    assert_eq!(ring.try_pop(0), Some(3));
    assert_eq!(ring.try_pop(0), None);
}

#[test]
fn small_ring_loans() {
    let mut ring = LoomRing::default();
    assert!(ring.claim(0).is_none());
    assert!(ring.try_push(7));
    assert!(ring.try_push(8));
    let mut first = ring.claim(0).unwrap();
    let mut second = ring.claim(0).unwrap();
    assert_eq!((first.index(), first.value(&ring)), (0, 7));
    assert_eq!((second.index(), second.value(&ring)), (1, 8));
    assert_eq!(ring.try_pop(0), None, "gated while a loan is open");
    assert!(!second.commit(&mut ring));
    assert!(first.commit(&mut ring));
    assert!(first.commit(&mut ring), "idempotent");
    second.abort(&mut ring);
    let again = ring.claim(0).unwrap();
    assert_eq!(again.index(), 1);
    again.drop(&mut ring);
    assert!(ring.claim(0).is_none());
}
