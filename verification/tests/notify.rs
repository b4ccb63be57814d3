//! Tests of the wakeup decisions: producers and consumers of one ring, run by
//! hand over a counter that behaves like an eventfd.

use std::cell::Cell;
use std::io::{Error, ErrorKind};

use shm_rings::notify::{
    after_drain, after_look, after_park, after_poll, after_push, after_signal, after_timed_look,
    after_timed_park, begin_wait, signal_result, try_wait_result, wait_result, Failure,
    FailureKind, PopAction, PushAction, WaitAction,
};
use shm_rings::ring::RingMemory;
use shm_rings::{ShmRingError, SpmcRingBuffer};

type U64Ring = SpmcRingBuffer<u64>;

/// Single-consumer ring: one participating reader cursor, so backpressure
/// tracks exactly the consumer under test.
fn ring1(name: &str, capacity: usize) -> (U64Ring, RingMemory<u64>) {
    U64Ring::create_new_with_readers(name.to_string(), false, capacity, 1, 0).unwrap()
}

const MS: u128 = 1_000_000;

/// An accumulating counter with a non-blocking read, and a clock that only
/// sleeps move, in nanoseconds.
struct Counter {
    units: Cell<u64>,
    clock: Cell<u128>,
}

impl Counter {
    fn new() -> Self {
        Counter {
            units: Cell::new(0),
            clock: Cell::new(0),
        }
    }

    fn signal(&self) -> Result<(), Error> {
        let write = if self.units.get() == u64::MAX - 1 {
            Err(failure(FailureKind::WouldBlock))
        } else {
            self.units.set(self.units.get() + 1);
            Ok(8)
        };
        signal_result(write)
    }

    fn try_wait(&self) -> Result<Option<u64>, Error> {
        let read = if self.units.get() == 0 {
            Err(failure(FailureKind::WouldBlock))
        } else {
            Ok(self.units.replace(0))
        };
        try_wait_result(read)
    }

    /// A wait whose sleeps run to their end, as nobody signals meanwhile.
    fn wait_timeout(&self, timeout: Option<u128>) -> Result<Option<u64>, Error> {
        let start = self.clock.get();
        let mut action = begin_wait();
        loop {
            action = match action {
                WaitAction::Drain => {
                    after_drain(timeout, self.clock.get() - start, self.try_wait())
                }
                WaitAction::Poll { timeout_ms } => {
                    assert!(timeout_ms > 0, "a sleep that nothing would end");
                    self.clock.set(self.clock.get() + timeout_ms as u128 * MS);
                    after_poll(Ok(0))
                }
                WaitAction::Return(result) => return result,
            };
        }
    }
}

fn failure(kind: FailureKind) -> Failure {
    let error = match kind {
        FailureKind::WouldBlock => Error::from(ErrorKind::WouldBlock),
        FailureKind::Interrupted => Error::from(ErrorKind::Interrupted),
        FailureKind::Other => Error::from(ErrorKind::PermissionDenied),
    };
    Failure { kind, error }
}

#[test]
fn eventfd_counter_accumulates_and_drains() {
    let notify = Counter::new();
    assert!(
        notify.try_wait().unwrap().is_none(),
        "fresh eventfd is empty"
    );
    notify.signal().unwrap();
    notify.signal().unwrap();
    assert_eq!(notify.try_wait().unwrap(), Some(2), "units accumulate");
    assert!(notify.try_wait().unwrap().is_none(), "drained");
}

#[test]
fn eventfd_wait_timeout_returns_none_when_idle() {
    let notify = Counter::new();
    assert!(notify.wait_timeout(Some(50 * MS)).unwrap().is_none());
    assert!(
        notify.clock.get() >= 45 * MS,
        "parked for the timeout instead of spinning"
    );
    assert_eq!(notify.clock.get(), 50 * MS);
}

#[test]
fn pop_blocking_wakes_on_signal() {
    let (mut ring, mut mem) = ring1("nb_wake.ring", 16);
    let notify = Counter::new();
    let mut reader = U64Ring::open_existing("nb_wake.ring".to_string(), &mem).unwrap();

    // Parks (ring empty)...
    assert!(matches!(
        reader.pop_blocking(&mut mem, 0),
        PopAction::Park
    ));
    assert!(ring
        .push_notified(&mut mem, &42, |_| notify.signal())
        .unwrap());
    // ...and must wake on the push signal.
    after_park(wait_result(notify.wait_timeout(None))).unwrap();
    match reader.pop_blocking(&mut mem, 0) {
        PopAction::Return(Ok(got)) => assert_eq!(got, Some(42)),
        other => panic!("expected the message, got {other:?}"),
    }
}

#[test]
fn pop_blocking_timeout_returns_none_when_no_message() {
    let (mut ring, mut mem) = ring1("nb_timeout.ring", 16);
    let timeout = 50_000_000u128;
    // Nothing there: sleep for all that is left.
    match ring.pop_blocking_timeout(&mut mem, 0, timeout, 0) {
        PopAction::ParkFor { nanos } => assert_eq!(nanos, timeout),
        other => panic!("expected ParkFor, got {other:?}"),
    }
    match ring.pop_blocking_timeout(&mut mem, 0, timeout, 45_000_000) {
        PopAction::ParkFor { nanos } => assert_eq!(nanos, 5_000_000),
        other => panic!("expected ParkFor, got {other:?}"),
    }
    // The time was slept away, or is found to be over.
    assert!(!after_timed_park(Ok(None)).unwrap());
    match ring.pop_blocking_timeout(&mut mem, 0, timeout, timeout) {
        PopAction::Return(Ok(got)) => assert_eq!(got, None),
        other => panic!("expected the timeout, got {other:?}"),
    }
}

#[test]
fn no_lost_wakeup_stress() {
    const MESSAGES: u64 = 4_000;
    let (mut ring, mut mem) = ring1("nb_stress.ring", 64);
    let notify = Counter::new();
    let mut reader = U64Ring::open_existing("nb_stress.ring".to_string(), &mem).unwrap();

    let mut state = 1u64;
    let mut sent = 0u64;
    let mut seen = 0u64;
    let mut parked = false;
    while seen < MESSAGES {
        state = state
            .wrapping_mul(6364136223846793005)
            .wrapping_add(1442695040888963407);
        if (state >> 33) % 2 == 0 && sent < MESSAGES {
            if ring
                .push_notified(&mut mem, &sent, |_| notify.signal())
                .unwrap()
            {
                sent += 1;
            }
        } else if parked {
            // Sleeps on until there is something to drain.
            if notify.try_wait().unwrap().is_some() {
                parked = false;
            } else {
                assert_eq!(seen, sent, "no lost wakeups");
            }
        } else {
            match reader.pop_blocking(&mut mem, 0) {
                PopAction::Return(Ok(Some(v))) => {
                    assert_eq!(v, seen, "FIFO under notification");
                    seen += 1;
                }
                PopAction::Park => parked = true,
                other => panic!("unexpected {other:?}"),
            }
        }
    }
    assert_eq!(seen, MESSAGES);
}

#[test]
fn pingpong_handoff_round_trips() {
    const ROUNDS: u64 = 500;
    let (mut req, mut req_mem) = ring1("nb_req.ring", 8);
    let (mut ack, mut ack_mem) = ring1("nb_ack.ring", 8);
    let req_notify = Counter::new();
    let ack_notify = Counter::new();
    let mut reader = U64Ring::open_existing("nb_req.ring".to_string(), &req_mem).unwrap();
    let mut writer = U64Ring::open_existing("nb_ack.ring".to_string(), &ack_mem).unwrap();

    for round in 0..ROUNDS {
        assert!(req
            .push_notified(&mut req_mem, &round, |_| req_notify.signal())
            .unwrap());

        let v = match reader.pop_blocking(&mut req_mem, 0) {
            PopAction::Return(Ok(Some(v))) => v,
            other => panic!("expected the request, got {other:?}"),
        };
        assert_eq!(v, round);
        assert!(writer
            .push_notified(&mut ack_mem, &(v * 2), |_| ack_notify.signal())
            .unwrap());

        match ack.pop_blocking_timeout(&mut ack_mem, 0, 5_000_000_000, 0) {
            PopAction::Return(Ok(Some(a))) => assert_eq!(a, round * 2),
            other => panic!("expected the ack, got {other:?}"),
        }
    }
}

#[test]
fn push_notified_reports_backpressure_without_signaling() {
    let (mut ring, mut mem) = ring1("nb_backpressure.ring", 2);
    let notify = Counter::new();

    assert!(ring.push_notified(&mut mem, &1, |_| notify.signal()).unwrap());
    assert!(ring.push_notified(&mut mem, &2, |_| notify.signal()).unwrap());
    // Full ring: nothing published, nothing signaled.
    assert!(!ring.push_notified(&mut mem, &3, |_| notify.signal()).unwrap());
    assert_eq!(notify.try_wait().unwrap(), Some(2), "exactly two signals");
}

#[test]
fn failed_signal_is_reported_with_the_message_published() {
    let (mut ring, mut mem) = ring1("nb_fail.ring", 2);
    let r = ring.push_notified(&mut mem, &1, |_| {
        signal_result(Err(failure(FailureKind::Other)))
    });
    match r {
        Err(ShmRingError::Io(e)) => assert_eq!(e.kind(), ErrorKind::PermissionDenied),
        other => panic!("expected Io, got {other:?}"),
    }
    assert_eq!(ring.total_written(&mem), 1);
}

#[test]
fn full_counter_counts_as_signalled() {
    let notify = Counter::new();
    notify.units.set(u64::MAX - 1);
    notify.signal().unwrap();
    assert_eq!(notify.try_wait().unwrap(), Some(u64::MAX - 1));
    assert!(signal_result(Err(failure(FailureKind::Interrupted))).is_err());
}

#[test]
fn drains_return_units_or_sleep_or_fail() {
    assert!(matches!(begin_wait(), WaitAction::Drain));
    assert!(matches!(
        after_drain(None, 7, Ok(Some(3))),
        WaitAction::Return(Ok(Some(3)))
    ));
    assert!(matches!(
        after_drain(None, u128::MAX, Ok(None)),
        WaitAction::Poll { timeout_ms: -1 }
    ));
    assert!(matches!(
        after_drain(None, 0, try_wait_result(Err(failure(FailureKind::Other)))),
        WaitAction::Return(Err(_))
    ));
}

#[test]
fn polls_drain_again_or_fail() {
    assert!(matches!(after_poll(Ok(0)), WaitAction::Drain));
    assert!(matches!(after_poll(Ok(1)), WaitAction::Drain));
    assert!(matches!(
        after_poll(Err(failure(FailureKind::Interrupted))),
        WaitAction::Drain
    ));
    assert!(matches!(
        after_poll(Err(failure(FailureKind::Other))),
        WaitAction::Return(Err(_))
    ));
    assert!(matches!(
        after_poll(Err(failure(FailureKind::WouldBlock))),
        WaitAction::Return(Err(_))
    ));
}

/// What a wait of `timeout` nanoseconds polls for when it begins.
fn first_poll(timeout: u128) -> i32 {
    match after_drain(Some(timeout), 0, Ok(None)) {
        WaitAction::Poll { timeout_ms } => timeout_ms,
        other => panic!("expected Poll, got {other:?}"),
    }
}

#[test]
fn sleeps_are_rounded_up_and_cut_to_what_poll_can_express() {
    assert_eq!(first_poll(1), 1);
    assert_eq!(first_poll(MS), 1);
    assert_eq!(first_poll(MS + 1), 2);
    assert_eq!(first_poll(50 * MS), 50);
    assert_eq!(first_poll((i32::MAX as u128 - 1) * MS + 1), i32::MAX);
    assert_eq!(first_poll(i32::MAX as u128 * MS), i32::MAX);
    assert_eq!(first_poll(i32::MAX as u128 * MS + 1), i32::MAX);
    assert_eq!(first_poll(u128::MAX), i32::MAX);
}

#[test]
fn interrupted_sleeps_do_not_extend_the_wait() {
    // 40 ms into a wait of 50, a signal handler ends the sleep: what is left is
    // slept, not the whole time again.
    assert!(matches!(
        after_poll(Err(failure(FailureKind::Interrupted))),
        WaitAction::Drain
    ));
    assert!(matches!(
        after_drain(Some(50 * MS), 40 * MS, Ok(None)),
        WaitAction::Poll { timeout_ms: 10 }
    ));
    assert!(matches!(
        after_drain(Some(50 * MS), 50 * MS - 1, Ok(None)),
        WaitAction::Poll { timeout_ms: 1 }
    ));
    assert!(matches!(
        after_drain(Some(50 * MS), 50 * MS, Ok(None)),
        WaitAction::Return(Ok(None))
    ));
}

#[test]
fn waits_past_the_longest_poll_sleep_on() {
    // Longer than one sleep can be: the first runs out, and the wait goes on.
    let notify = Counter::new();
    let limit = (i32::MAX as u128 + 5) * MS;
    assert!(notify.wait_timeout(Some(limit)).unwrap().is_none());
    assert_eq!(notify.clock.get(), limit);
}

#[test]
fn pending_units_are_returned_without_sleeping() {
    let notify = Counter::new();
    notify.signal().unwrap();
    assert_eq!(notify.wait_timeout(Some(0)).unwrap(), Some(1));
    assert_eq!(notify.wait_timeout(Some(0)).unwrap(), None);
    notify.signal().unwrap();
    notify.signal().unwrap();
    assert_eq!(notify.wait_timeout(None).unwrap(), Some(2));
    assert_eq!(notify.clock.get(), 0, "nothing was slept");
    assert!(matches!(
        after_drain(Some(5), 9, Ok(Some(4))),
        WaitAction::Return(Ok(Some(4)))
    ));
}

#[test]
fn only_published_messages_are_signalled() {
    assert_eq!(after_push(true), PushAction::Signal);
    assert_eq!(after_push(false), PushAction::Return { pushed: false });
}

#[test]
fn signal_comes_after_the_message_is_published() {
    let (mut ring, mut mem) = ring1("nb_order.ring", 2);
    let seen = Cell::new(None);
    let pushed = ring.push_notified(&mut mem, &42, |m: &RingMemory<u64>| {
        seen.set(Some((m.header.write_idx(), m.slots[0])));
        Ok(())
    });
    assert!(pushed.unwrap());
    assert_eq!(seen.get(), Some((1, 42)));
}

#[test]
fn waits_without_a_timeout_give_at_least_one_unit() {
    assert_eq!(wait_result(Ok(Some(5))).unwrap(), 5);
    assert_eq!(wait_result(Ok(None)).unwrap(), 1);
    assert!(wait_result(Err(failure(FailureKind::Other).error)).is_err());
}

#[test]
fn looks_end_with_a_message_or_an_error() {
    assert!(matches!(after_look::<u64>(Ok(None)), PopAction::Park));
    assert!(matches!(
        after_look(Ok(Some(7u64))),
        PopAction::Return(Ok(Some(7)))
    ));
    assert!(matches!(
        after_look::<u64>(Err(ShmRingError::AlreadyExists)),
        PopAction::Return(Err(ShmRingError::AlreadyExists))
    ));
    assert!(matches!(
        after_timed_look::<u64>(Ok(None), 10, 4),
        PopAction::ParkFor { nanos: 6 }
    ));
    assert!(matches!(
        after_timed_look::<u64>(Ok(None), 10, 11),
        PopAction::Return(Ok(None))
    ));
    assert!(matches!(
        after_timed_look(Ok(Some(7u64)), 10, 11),
        PopAction::Return(Ok(Some(7)))
    ));
    assert!(after_timed_park(Ok(Some(1))).unwrap());
    assert!(matches!(
        after_timed_park(Err(failure(FailureKind::Other).error)),
        Err(ShmRingError::Io(_))
    ));
    assert!(matches!(
        after_park(Err(failure(FailureKind::Other).error)),
        Err(ShmRingError::Io(_))
    ));
    assert!(after_signal(Ok(())).unwrap());
}
