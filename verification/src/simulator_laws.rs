//! What a simulated ring and a scenario on stage show of themselves: laws about
//! the calls of [`Simulator`] and [`Stage`], over what went in and what comes
//! out.

use vstd::prelude::*;

use crate::header::MAX_READERS;
use crate::interleaving::{Producer, Task};
use crate::protocol::{
    ClaimOutcome, ClaimStage, PopOutcome, PopStage, PushStage, ResolveMode, ResolveStage,
};
use crate::scenario::{Stage, Thread};
use crate::simulator::Simulator;

verus! {

/// A simulator comes about for every number of slots that is a power of two and
/// that a file can hold, and every number of consumers from one to the most
/// there can be; for no others. It starts with nothing published, blank slots
/// and everyone at rest.
pub proof fn law_simulator_starts_fresh<T: Copy>(
    capacity: usize,
    num_readers: usize,
    blank: T,
    r: Option<Simulator<T>>,
)
    requires
        vstd::layout::align_of::<T>() <= 64,
        call_ensures(Simulator::<T>::new, (capacity, num_readers, blank), r),
    ensures
        call_requires(Simulator::<T>::new, (capacity, num_readers, blank)),
        r is Some <==> {
            &&& vstd::arithmetic::power2::is_pow2(capacity as int)
            &&& 1 <= num_readers <= MAX_READERS
            &&& 256 + capacity * vstd::layout::size_of::<T>() <= u64::MAX
        },
        r matches Some(sim) ==> {
            let s = sim@;
            &&& sim.wf()
            &&& s.stream.len() == 0
            &&& s.producer is Idle
            &&& s.mem.header.write_idx == 0
            &&& s.mem.header.total_written == 0
            &&& s.mem.slots.len() == capacity
            &&& forall|i: int| 0 <= i < capacity ==> #[trigger] s.mem.slots[i] == blank
            &&& s.consumers.len() == num_readers
            &&& forall|k: int|
                0 <= k < num_readers ==> {
                    let c = #[trigger] s.consumers[k];
                    c.task is Idle && c.held is None && c.taken.len() == 0 && c.open.len() == 0
                }
        },
{
}

/// What a simulator reports of its ring is what its ring holds.
pub proof fn law_simulator_reports_its_ring<T: Copy>(
    sim: &Simulator<T>,
    count: usize,
    written: u64,
    total: u64,
    idx: u64,
    message: T,
)
    requires
        sim.wf(),
        call_ensures(Simulator::<T>::consumer_count, (sim,), count),
        call_ensures(Simulator::<T>::write_idx, (sim,), written),
        call_ensures(Simulator::<T>::total_written, (sim,), total),
        call_ensures(Simulator::<T>::message, (sim, idx), message),
    ensures
        call_requires(Simulator::<T>::consumer_count, (sim,)),
        call_requires(Simulator::<T>::write_idx, (sim,)),
        call_requires(Simulator::<T>::total_written, (sim,)),
        call_requires(Simulator::<T>::message, (sim, idx)),
        count == sim@.consumers.len(),
        written == sim@.mem.header.write_idx,
        total == sim@.mem.header.total_written,
        message == sim@.mem.slots[idx as int % (sim@.mem.header.capacity_mask + 1)],
{
}

/// The producer rests exactly when no push is under way, and tells how the
/// last one ended exactly when there was one and it has.
pub proof fn law_simulator_reports_its_producer<T: Copy>(
    sim: &Simulator<T>,
    rests: bool,
    outcome: Option<bool>,
)
    requires
        sim.wf(),
        call_ensures(Simulator::<T>::producer_resting, (sim,), rests),
        call_ensures(Simulator::<T>::push_outcome, (sim,), outcome),
    ensures
        call_requires(Simulator::<T>::producer_resting, (sim,)),
        call_requires(Simulator::<T>::push_outcome, (sim,)),
        match sim@.producer {
            Producer::Idle => rests && outcome is None,
            Producer::Pushing { stage: PushStage::Done { pushed }, .. } => rests && outcome
                == Some(pushed),
            Producer::Pushing { .. } => !rests && outcome is None,
        },
{
}

/// A consumer rests exactly when nothing of it is under way. It shows a message
/// after a pop that consumed one, an index after a claim that reserved one, and
/// a resolution after one that came to its end; never two of them.
pub proof fn law_simulator_reports_its_consumers<T: Copy>(
    sim: &Simulator<T>,
    r: usize,
    rests: bool,
    popped: Option<T>,
    claimed: Option<u64>,
    resolved: bool,
)
    requires
        sim.wf(),
        r < sim@.consumers.len(),
        call_ensures(Simulator::<T>::resting, (sim, r), rests),
        call_ensures(Simulator::<T>::popped, (sim, r), popped),
        call_ensures(Simulator::<T>::claimed, (sim, r), claimed),
        call_ensures(Simulator::<T>::resolved, (sim, r), resolved),
    ensures
        call_requires(Simulator::<T>::resting, (sim, r)),
        call_requires(Simulator::<T>::popped, (sim, r)),
        call_requires(Simulator::<T>::claimed, (sim, r)),
        call_requires(Simulator::<T>::resolved, (sim, r)),
        match sim@.consumers[r as int].task {
            Task::Idle => rests && popped is None && claimed is None && !resolved,
            Task::Pop { stage } => {
                &&& rests <==> stage is Done
                &&& stage == (PopStage::Done { outcome: PopOutcome::Taken }) ==> popped
                    == sim@.consumers[r as int].held
                &&& stage != (PopStage::Done { outcome: PopOutcome::Taken }) ==> popped is None
                &&& claimed is None
                &&& !resolved
            },
            Task::Claim { stage } => {
                &&& rests <==> stage is Done
                &&& popped is None
                &&& match stage {
                    ClaimStage::Done { outcome: ClaimOutcome::Claimed { idx } } => claimed == Some(
                        idx,
                    ),
                    _ => claimed is None,
                }
                &&& !resolved
            },
            Task::Resolve { stage, .. } => {
                &&& rests <==> stage is Resolved || stage is NotAtCursor
                &&& popped is None
                &&& claimed is None
                &&& resolved <==> stage is Resolved
            },
        },
{
}

/// A push is begun with nothing done yet: the ring, the stream and the
/// consumers are as they were, and the value is on its way. The producer may
/// begin one whenever it rests and the counters have room.
pub proof fn law_simulator_begins_a_push<T: Copy>(sim: &mut Simulator<T>, value: T)
    requires
        old(sim).wf(),
        call_ensures(Simulator::<T>::start_push, (sim, value), ()),
    ensures
        final(sim).wf(),
        final(sim)@.mem == old(sim)@.mem,
        final(sim)@.stream == old(sim)@.stream,
        final(sim)@.consumers == old(sim)@.consumers,
        final(sim)@.producer matches Producer::Pushing { value: v, stage } && v == value
            && !(stage is Done),
        old(sim)@.producer.resting() && old(sim)@.mem.header.write_idx < u64::MAX
            ==> call_requires(Simulator::<T>::start_push, (sim, value)),
{
}

/// An operation of a consumer is begun with nothing done yet: the ring, the
/// stream, the producer and the other consumers are as they were, and so is
/// what the consumer has taken and has open.
pub proof fn law_simulator_begins_for_one_consumer<T: Copy>(
    sim: &mut Simulator<T>,
    r: usize,
    index: u64,
    mode: ResolveMode,
)
    requires
        old(sim).wf(),
        r < old(sim)@.consumers.len(),
        call_ensures(Simulator::<T>::start_pop, (sim, r), ()) || call_ensures(
            Simulator::<T>::start_claim,
            (sim, r),
            (),
        ) || call_ensures(Simulator::<T>::start_resolve, (sim, r, index, mode), ()),
    ensures
        final(sim).wf(),
        final(sim)@.mem == old(sim)@.mem,
        final(sim)@.stream == old(sim)@.stream,
        final(sim)@.producer == old(sim)@.producer,
        final(sim)@.consumers.len() == old(sim)@.consumers.len(),
        forall|k: int|
            0 <= k < old(sim)@.consumers.len() && k != r ==> #[trigger] final(sim)@.consumers[k]
                == old(sim)@.consumers[k],
        final(sim)@.consumers[r as int].taken == old(sim)@.consumers[r as int].taken,
        final(sim)@.consumers[r as int].open == old(sim)@.consumers[r as int].open,
        final(sim)@.consumers[r as int].handle == old(sim)@.consumers[r as int].handle,
        call_ensures(Simulator::<T>::start_pop, (sim, r), ()) ==> {
            &&& final(sim)@.consumers[r as int].task is Pop
            &&& !(final(sim)@.consumers[r as int].task->Pop_stage is Done)
        },
        call_ensures(Simulator::<T>::start_claim, (sim, r), ()) ==> {
            &&& final(sim)@.consumers[r as int].task is Claim
            &&& !(final(sim)@.consumers[r as int].task->Claim_stage is Done)
        },
        call_ensures(Simulator::<T>::start_resolve, (sim, r, index, mode), ()) ==> {
            &&& final(sim)@.consumers[r as int].task matches Task::Resolve {
                index: i,
                mode: m,
                stage,
            } && i == index && m == mode && !(stage is Resolved) && !(stage is NotAtCursor)
        },
{
}

/// An access of the producer leaves every consumer as it was, and moves no
/// cursor and no pipeline head.
pub proof fn law_producer_access_spares_consumers<T: Copy>(sim: &mut Simulator<T>, behind: u64)
    requires
        old(sim).wf(),
        !old(sim)@.producer.resting(),
        call_ensures(Simulator::<T>::step_producer, (sim, behind), ()),
    ensures
        call_requires(Simulator::<T>::step_producer, (sim, behind)),
        final(sim).wf(),
        final(sim)@.consumers == old(sim)@.consumers,
        final(sim)@.mem.header.read_indices == old(sim)@.mem.header.read_indices,
        final(sim)@.mem.slots.len() == old(sim)@.mem.slots.len(),
        forall|i: int|
            0 <= i < old(sim)@.mem.slots.len() && i != old(sim)@.mem.header.write_idx as int % (old(
                sim,
            )@.mem.header.capacity_mask + 1) ==> #[trigger] final(sim)@.mem.slots[i] == old(
                sim,
            )@.mem.slots[i],
        old(sim)@.mem.header.write_idx <= final(sim)@.mem.header.write_idx <= old(
            sim,
        )@.mem.header.write_idx + 1,
{
    old(sim).law_keeps_the_promise();
}

/// An access of a consumer publishes nothing and writes no slot. It leaves the
/// producer, the other consumers and their cursors as they were, and never
/// takes its own cursor back.
pub proof fn law_consumer_access_spares_the_rest<T: Copy>(
    sim: &mut Simulator<T>,
    r: usize,
    behind: u64,
)
    requires
        old(sim).wf(),
        r < old(sim)@.consumers.len(),
        !old(sim)@.consumers[r as int].task.resting(),
        call_ensures(Simulator::<T>::step_consumer, (sim, r, behind), ()),
    ensures
        call_requires(Simulator::<T>::step_consumer, (sim, r, behind)),
        final(sim).wf(),
        final(sim)@.mem.slots == old(sim)@.mem.slots,
        final(sim)@.mem.header.write_idx == old(sim)@.mem.header.write_idx,
        final(sim)@.stream == old(sim)@.stream,
        final(sim)@.producer == old(sim)@.producer,
        final(sim)@.consumers.len() == old(sim)@.consumers.len(),
        forall|k: int|
            0 <= k < old(sim)@.consumers.len() && k != r ==> {
                &&& #[trigger] final(sim)@.consumers[k] == old(sim)@.consumers[k]
                &&& final(sim)@.mem.header.read_indices[k] == old(sim)@.mem.header.read_indices[k]
            },
        old(sim)@.mem.header.read_indices[r as int] <= final(sim)@.mem.header.read_indices[r as int]
            <= old(sim)@.mem.header.read_indices[r as int] + 1,
{
    old(sim).law_keeps_the_promise();
    assert(old(sim)@.mem.participant(r as int));
    assert(old(sim)@.consumer_inv(r as int));
}

/// A stage begins with the ring and the threads that it was given and no
/// signal raised.
pub proof fn law_stage_begins_as_given(
    sim: Simulator<u64>,
    threads: Vec<Thread>,
    stage: Stage,
    k: usize,
    thread: Thread,
    total: u64,
)
    requires
        sim.wf(),
        k < threads@.len(),
        call_ensures(Stage::new, (sim, threads), stage),
        call_ensures(Stage::thread, (&stage, k), thread),
        call_ensures(Stage::total_written, (&stage,), total),
    ensures
        call_requires(Stage::new, (sim, threads)),
        call_requires(Stage::thread, (&stage, k)),
        call_requires(Stage::total_written, (&stage,)),
        stage@.notify == 0,
        thread == threads@[k as int],
        total == sim@.mem.header.total_written,
{
}

} // verus!
