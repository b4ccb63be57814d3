//! What the decisions around an event counter promise.
//!
//! As in [`crate::ring_laws`], the premises are calls and their results. Times
//! are nanoseconds.

use vstd::arithmetic::power2::*;
use vstd::prelude::*;

use crate::error::ShmRingError;
use crate::notify::{
    after_drain, after_look, after_park, after_poll, after_push, after_signal, after_timed_look,
    after_timed_park, begin_wait, signal_result, try_wait_result, wait_result, Failure, FailureKind,
    PopAction, PushAction, WaitAction,
};
use crate::ring::{RingMemory, SpmcRingBuffer};

verus! {

/// A signal fails only where its write failed, and not because the counter was
/// full; the error is the write's own.
pub proof fn law_signal_result(write: Result<u64, Failure>, r: Result<(), std::io::Error>)
    requires
        call_ensures(signal_result, (write,), r),
    ensures
        write is Ok ==> r is Ok,
        write matches Err(failure) ==> {
            &&& failure.kind == FailureKind::WouldBlock ==> r is Ok
            &&& failure.kind != FailureKind::WouldBlock ==> r == Err::<(), std::io::Error>(
                failure.error,
            )
        },
{
}

/// A drain gives the units that the read consumed, nothing where there were
/// none, and else the read's own error.
pub proof fn law_drain_result(read: Result<u64, Failure>, r: Result<Option<u64>, std::io::Error>)
    requires
        call_ensures(try_wait_result, (read,), r),
    ensures
        read matches Ok(units) ==> r == Ok::<Option<u64>, std::io::Error>(Some(units)),
        read matches Err(failure) ==> {
            &&& failure.kind == FailureKind::WouldBlock ==> r == Ok::<
                Option<u64>,
                std::io::Error,
            >(None)
            &&& failure.kind != FailureKind::WouldBlock ==> r == Err::<
                Option<u64>,
                std::io::Error,
            >(failure.error)
        },
{
}

/// A wait begins with a drain, not with a sleep.
pub proof fn law_wait_begins_with_a_drain(a: WaitAction)
    requires
        call_ensures(begin_wait, (), a),
    ensures
        a == WaitAction::Drain,
{
}

/// After a drain that found units the wait is over and gives them all; after
/// one that failed it is over with that error. Neither depends on the time.
pub proof fn law_drain_ends_the_wait(
    timeout: Option<u128>,
    elapsed: u128,
    units: u64,
    error: std::io::Error,
    a: WaitAction,
    b: WaitAction,
)
    requires
        call_ensures(after_drain, (timeout, elapsed, Ok(Some(units))), a),
        call_ensures(after_drain, (timeout, elapsed, Err(error)), b),
    ensures
        a == WaitAction::Return(Ok(Some(units))),
        b == WaitAction::Return(Err(error)),
{
}

/// After a drain that found nothing, a wait without a limit sleeps without a
/// limit: it never gives up.
pub proof fn law_unlimited_wait_never_gives_up(elapsed: u128, a: WaitAction)
    requires
        call_ensures(after_drain, (None::<u128>, elapsed, Ok(None)), a),
    ensures
        a matches WaitAction::Poll { timeout_ms } && timeout_ms == -1,
{
}

/// After a drain that found nothing, a wait with a limit gives up if the limit
/// has passed, and else sleeps: for at least a millisecond, for less than a
/// millisecond longer than what is left, and for no less than what is left
/// unless that is more than `poll(2)` can express.
pub proof fn law_sleep_is_as_long_as_what_is_left(limit: u128, elapsed: u128, a: WaitAction)
    requires
        call_ensures(after_drain, (Some(limit), elapsed, Ok(None)), a),
    ensures
        elapsed >= limit ==> a == WaitAction::Return(Ok(None)),
        elapsed < limit ==> {
            &&& a matches WaitAction::Poll { timeout_ms }
            &&& timeout_ms >= 1
            &&& (timeout_ms - 1) * 1_000_000 < limit - elapsed
            &&& timeout_ms < i32::MAX ==> timeout_ms * 1_000_000 >= limit - elapsed
        },
{
}

/// A wait that is never signalled gives up within a millisecond of its limit:
/// when a sleep shorter than the longest has been slept to its end, the next
/// drain ends the wait, and that is less than a millisecond past the limit. A
/// longest sleep does not reach past the limit.
pub proof fn law_wait_gives_up_on_time(
    limit: u128,
    elapsed: u128,
    timeout_ms: i32,
    later: u128,
    b: WaitAction,
)
    requires
        elapsed < limit,
        call_ensures(
            after_drain,
            (Some(limit), elapsed, Ok(None)),
            (WaitAction::Poll { timeout_ms }),
        ),
        later == elapsed + timeout_ms * 1_000_000,
        call_ensures(after_drain, (Some(limit), later, Ok(None)), b),
    ensures
        later < limit + 1_000_000,
        timeout_ms < i32::MAX ==> b == WaitAction::Return(Ok(None)),
        b != WaitAction::Return(Ok(None)) ==> later < limit,
{
    law_sleep_is_as_long_as_what_is_left(limit, elapsed, WaitAction::Poll { timeout_ms });
}

/// After a sleep the wait drains again, whether the sleep ended because of a
/// signal, a signal handler, or the clock; only an error of the sleep ends it.
pub proof fn law_sleep_is_followed_by_a_drain(polled: Result<u64, Failure>, a: WaitAction)
    requires
        call_ensures(after_poll, (polled,), a),
    ensures
        polled is Ok ==> a == WaitAction::Drain,
        polled matches Err(failure) ==> {
            &&& failure.kind == FailureKind::Interrupted ==> a == WaitAction::Drain
            &&& failure.kind != FailureKind::Interrupted ==> a == WaitAction::Return(
                Err(failure.error),
            )
        },
{
}

/// A wait without a limit gives its units, or its error.
pub proof fn law_wait_result(waited: Result<Option<u64>, std::io::Error>, r: Result<
    u64,
    std::io::Error,
>)
    requires
        call_ensures(wait_result, (waited,), r),
    ensures
        waited matches Ok(Some(units)) ==> r == Ok::<u64, std::io::Error>(units),
        waited matches Err(error) ==> r == Err::<u64, std::io::Error>(error),
        waited == Ok::<Option<u64>, std::io::Error>(None) ==> r == Ok::<u64, std::io::Error>(1),
{
}

/// Only a published message is signalled, and what a notified push then
/// reports is what became of the signal.
pub proof fn law_signal_follows_publication(
    pushed: bool,
    a: PushAction,
    signalled: Result<(), std::io::Error>,
    r: Result<bool, ShmRingError>,
)
    requires
        call_ensures(after_push, (pushed,), a),
        call_ensures(after_signal, (signalled,), r),
    ensures
        pushed <==> a == PushAction::Signal,
        !pushed ==> a == (PushAction::Return { pushed: false }),
        signalled is Ok ==> r == Ok::<bool, ShmRingError>(true),
        signalled matches Err(error) ==> r == Err::<bool, ShmRingError>(ShmRingError::Io(error)),
{
}

/// A blocking pop sleeps on an empty ring and on nothing else; a message and
/// an error end it. With a limit it sleeps for exactly what is left, and gives
/// up on an empty ring once nothing is.
pub proof fn law_blocking_pop_sleeps_on_an_empty_ring<T>(
    popped: Result<Option<T>, ShmRingError>,
    timeout: u128,
    elapsed: u128,
    a: PopAction<T>,
    b: PopAction<T>,
)
    requires
        call_ensures(after_look::<T>, (popped,), a),
        call_ensures(after_timed_look::<T>, (popped, timeout, elapsed), b),
    ensures
        popped == Ok::<Option<T>, ShmRingError>(None) ==> {
            &&& a is Park
            &&& elapsed < timeout ==> b == (PopAction::<T>::ParkFor {
                nanos: (timeout - elapsed) as u128,
            })
            &&& elapsed >= timeout ==> b == PopAction::<T>::Return(Ok(None))
        },
        popped != Ok::<Option<T>, ShmRingError>(None) ==> {
            &&& a == PopAction::<T>::Return(popped)
            &&& b == PopAction::<T>::Return(popped)
        },
{
}

/// A blocking pop looks again after every wakeup; a failed sleep ends it with
/// the error, and a sleep that used up the time ends it without a message.
pub proof fn law_blocking_pop_looks_again(
    woken: Result<u64, std::io::Error>,
    r: Result<(), ShmRingError>,
    timed: Result<Option<u64>, std::io::Error>,
    s: Result<bool, ShmRingError>,
)
    requires
        call_ensures(after_park, (woken,), r),
        call_ensures(after_timed_park, (timed,), s),
    ensures
        woken is Ok ==> r is Ok,
        woken matches Err(error) ==> r == Err::<(), ShmRingError>(ShmRingError::Io(error)),
        timed matches Ok(units) ==> s == Ok::<bool, ShmRingError>(units is Some),
        timed matches Err(error) ==> s == Err::<bool, ShmRingError>(ShmRingError::Io(error)),
{
}

/// A notified push is a push: it leaves the memory as a push does and is
/// refused when a push is, and then gives no signal. It fails only with the
/// error of a signal that was given.
pub proof fn law_notified_push_is_a_push<
    T: Copy,
    F: FnOnce(&RingMemory<T>) -> Result<(), std::io::Error>,
>(
    ring: &mut SpmcRingBuffer<T>,
    mem: &mut RingMemory<T>,
    value: &T,
    signal: F,
    r: Result<bool, ShmRingError>,
    twin: &mut SpmcRingBuffer<T>,
    same: &mut RingMemory<T>,
    pushed: bool,
)
    requires
        call_ensures(SpmcRingBuffer::<T>::push_notified::<F>, (ring, mem, value, signal), r),
        *old(same) == *old(mem),
        call_ensures(SpmcRingBuffer::<T>::try_push, (twin, same, value), pushed),
    ensures
        final(ring)@ == old(ring)@,
        final(mem)@ == final(same)@,
        r == Ok::<bool, ShmRingError>(false) <==> !pushed,
        pushed ==> {
            ||| r == Ok::<bool, ShmRingError>(true) && exists|m: &RingMemory<T>|
                m@ == final(mem)@ && #[trigger] signal.ensures((m,), Ok(()))
            ||| exists|m: &RingMemory<T>, error: std::io::Error|
                {
                    &&& r == Err::<bool, ShmRingError>(ShmRingError::Io(error))
                    &&& m@ == final(mem)@
                    &&& #[trigger] signal.ensures((m,), Err(error))
                }
        },
{
}

/// A notified push may be called when a push may, with a signal that can be
/// given on the memory that holds the message.
pub proof fn law_notified_push_may_be_called<
    T: Copy,
    F: FnOnce(&RingMemory<T>) -> Result<(), std::io::Error>,
>(ring: &mut SpmcRingBuffer<T>, mem: &mut RingMemory<T>, value: &T, signal: F)
    requires
        call_requires(SpmcRingBuffer::<T>::try_push, (ring, mem, value)),
        is_pow2(old(mem).header.capacity_mask + 1),
        old(mem).header.capacity_mask + 1 <= old(mem).slots@.len(),
        old(mem).header.num_readers <= 8,
        old(ring)@.capacity == old(mem).header.capacity_mask + 1,
        old(ring)@.claim_base.len() == 8,
        old(ring)@.loan_depth.len() == 8,
        forall|m: &RingMemory<T>| #[trigger] signal.requires((m,)),
    ensures
        call_requires(SpmcRingBuffer::<T>::push_notified::<F>, (ring, mem, value, signal)),
{
    assert(old(mem).slots.len() == old(mem).slots@.len());
}

/// A look of a blocking pop is a pop: it leaves the memory as a pop does, asks
/// to sleep exactly when a pop finds nothing (and time is left), and else
/// returns what a pop gives.
pub proof fn law_blocking_pop_is_a_pop<T: Copy>(
    ring: &mut SpmcRingBuffer<T>,
    mem: &mut RingMemory<T>,
    reader_id: usize,
    a: PopAction<T>,
    timed: &mut SpmcRingBuffer<T>,
    other: &mut RingMemory<T>,
    timeout: u128,
    elapsed: u128,
    b: PopAction<T>,
    twin: &mut SpmcRingBuffer<T>,
    same: &mut RingMemory<T>,
    popped: Result<Option<T>, ShmRingError>,
)
    requires
        reader_id < 8,
        call_ensures(SpmcRingBuffer::<T>::pop_blocking, (ring, mem, reader_id), a),
        old(timed)@ == old(ring)@,
        *old(other) == *old(mem),
        call_ensures(
            SpmcRingBuffer::<T>::pop_blocking_timeout,
            (timed, other, reader_id, timeout, elapsed),
            b,
        ),
        old(twin)@ == old(ring)@,
        *old(same) == *old(mem),
        call_ensures(SpmcRingBuffer::<T>::try_pop, (twin, same, reader_id), popped),
    ensures
        final(ring)@ == old(ring)@,
        final(timed)@ == old(timed)@,
        final(mem)@ == final(same)@,
        final(other)@ == final(same)@,
        popped == Ok::<Option<T>, ShmRingError>(None) ==> {
            &&& a is Park
            &&& elapsed < timeout ==> b == (PopAction::<T>::ParkFor {
                nanos: (timeout - elapsed) as u128,
            })
            &&& elapsed >= timeout ==> b == PopAction::<T>::Return(Ok(None))
        },
        popped matches Ok(Some(v)) ==> {
            &&& a == PopAction::<T>::Return(Ok(Some(v)))
            &&& b == PopAction::<T>::Return(Ok(Some(v)))
        },
        popped matches Err(ShmRingError::InvalidReaderId { id, max }) ==> {
            &&& a matches PopAction::Return(Err(ShmRingError::InvalidReaderId { id: i, max: m }))
            &&& b matches PopAction::Return(Err(ShmRingError::InvalidReaderId { id: j, max: n }))
            &&& i == id && m == max && j == id && n == max
        },
        popped matches Err(ShmRingError::LoanOutstanding { reader_id: id }) ==> {
            &&& a matches PopAction::Return(Err(ShmRingError::LoanOutstanding { reader_id: i }))
            &&& b matches PopAction::Return(Err(ShmRingError::LoanOutstanding { reader_id: j }))
            &&& i == id && j == id
        },
{
}

} // verus!
