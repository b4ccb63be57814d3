//! What the two-slot ring of [`crate::loom_ring`] promises: it is a ring.
//!
//! As in [`crate::ring_laws`], the premises are calls and their results.

use vstd::prelude::*;

use crate::error::ShmRingError;
use crate::loan::Loan;
use crate::loom_ring::{LoomLoan, LoomRing};
use crate::ring::{RingMemory, SpmcRingBuffer};

verus! {

/// A new small ring has two slots, as many readers as asked for (eight if
/// not), and nothing published, consumed or claimed.
pub proof fn law_new_small_ring(num_readers: usize, a: LoomRing, b: LoomRing)
    requires
        call_ensures(LoomRing::with_readers, (num_readers,), a),
        call_ensures(LoomRing::new, (), b),
        1 <= num_readers <= 8,
    ensures
        a.mem.header.num_readers == num_readers,
        b.mem.header.num_readers == 8,
        a.mem.header.capacity_mask == 1,
        b.mem.header.capacity_mask == 1,
        a.mem.header.write_idx == 0,
        b.mem.header.write_idx == 0,
        a.mem.header.total_written == 0,
        b.mem.header.total_written == 0,
        a.mem.slots@.len() == 2,
        b.mem.slots@.len() == 2,
        forall|k: int| 0 <= k < 8 ==> #[trigger] a.mem.header.read_indices[k] == 0,
        forall|k: int| 0 <= k < 8 ==> #[trigger] b.mem.header.read_indices[k] == 0,
        a.ring@.capacity == 2,
        b.ring@.capacity == 2,
        forall|k: int| 0 <= k < 8 ==> #[trigger] a.ring@.claim_base[k] == 0,
        forall|k: int| 0 <= k < 8 ==> #[trigger] b.ring@.claim_base[k] == 0,
        forall|k: int| 0 <= k < 8 ==> #[trigger] a.ring@.loan_depth[k] == 0,
        forall|k: int| 0 <= k < 8 ==> #[trigger] b.ring@.loan_depth[k] == 0,
        call_requires(LoomRing::with_readers, (num_readers,)),
{
    assert(a.mem@.header.read_indices == a.mem.header.read_indices@);
    assert(b.mem@.header.read_indices == b.mem.header.read_indices@);
    assert(a.mem@.header.magic == a.mem.header.magic);
    assert(b.mem@.header.magic == b.mem.header.magic);
    assert(a.mem@.slots == a.mem.slots@);
    assert(b.mem@.slots == b.mem.slots@);
}

/// The operations of a small ring may be called while no cursor is ahead of
/// the producer or more than two behind it.
pub proof fn law_small_ring_may_be_used(ring: &mut LoomRing, value: u64, reader_id: usize)
    requires
        old(ring).mem.header.capacity_mask == 1,
        old(ring).mem.slots@.len() >= 2,
        1 <= old(ring).mem.header.num_readers <= 8,
        old(ring).ring@.capacity == 2,
        old(ring).ring@.claim_base.len() == 8,
        old(ring).ring@.loan_depth.len() == 8,
        forall|k: int|
            0 <= k < old(ring).mem.header.num_readers ==> #[trigger] old(
                ring,
            ).mem.header.read_indices[k] <= old(ring).mem.header.write_idx <= old(
                ring,
            ).mem.header.read_indices[k] + 2,
        reader_id < old(ring).mem.header.num_readers,
    ensures
        call_requires(LoomRing::try_push, (ring, value)),
        call_requires(LoomRing::try_pop, (ring, reader_id)),
        call_requires(LoomRing::claim, (ring, reader_id)),
{
    reveal_with_fuel(vstd::arithmetic::power2::is_pow2, 3);
    let s = old(ring).mem@;
    assert(old(ring).mem.slots.len() == old(ring).mem.slots@.len());
    assert forall|r: int| s.participant(r) implies #[trigger] s.cursor(r) <= s.header.write_idx
        && s.header.write_idx - s.cursor(r) <= s.capacity() by {
        assert(s.cursor(r) == old(ring).mem.header.read_indices[r]);
    }
}

/// A small ring pushes and pops as a ring does: the same is accepted, the same
/// comes out, and the same is left.
pub proof fn law_small_ring_is_a_ring(
    small: &mut LoomRing,
    value: u64,
    pushed: bool,
    ring: &mut SpmcRingBuffer<u64>,
    mem: &mut RingMemory<u64>,
    borrowed: &u64,
    accepted: bool,
    popping: &mut LoomRing,
    reader_id: usize,
    popped: Option<u64>,
    other: &mut SpmcRingBuffer<u64>,
    twin: &mut RingMemory<u64>,
    r: Result<Option<u64>, ShmRingError>,
)
    requires
        call_ensures(LoomRing::try_push, (small, value), pushed),
        *old(mem) == old(small).mem,
        old(ring)@ == old(small).ring@,
        *borrowed == value,
        call_ensures(SpmcRingBuffer::<u64>::try_push, (ring, mem, borrowed), accepted),
        call_ensures(LoomRing::try_pop, (popping, reader_id), popped),
        *old(twin) == old(popping).mem,
        old(other)@ == old(popping).ring@,
        call_ensures(SpmcRingBuffer::<u64>::try_pop, (other, twin, reader_id), r),
        reader_id < old(popping).mem.header.num_readers <= 8,
        old(popping).mem.header.read_indices[reader_id as int] <= old(
            popping,
        ).mem.header.write_idx,
    ensures
        pushed == accepted,
        final(small).mem@ == final(mem)@,
        final(small).ring@ == final(ring)@,
        popped == match r {
            Ok(got) => got,
            Err(_) => None,
        },
        final(popping).mem@ == final(twin)@,
        final(popping).ring@ == final(other)@,
{
    let s = old(popping).mem@;
    let id = reader_id as int;
    assert(s.cursor(id) == old(popping).mem.header.read_indices[id]);
}

/// Claims and loans of a small ring are those of a ring.
pub proof fn law_small_loans_are_loans(
    small: &mut LoomRing,
    reader_id: usize,
    claimed: Option<LoomLoan>,
    ring: &mut SpmcRingBuffer<u64>,
    mem: &RingMemory<u64>,
    r: Result<Option<Loan>, ShmRingError>,
)
    requires
        call_ensures(LoomRing::claim, (small, reader_id), claimed),
        *mem == old(small).mem,
        old(ring)@ == old(small).ring@,
        call_ensures(SpmcRingBuffer::<u64>::claim, (ring, mem, reader_id), r),
        reader_id < mem.header.num_readers,
    ensures
        match (claimed, r) {
            (Some(a), Ok(Some(b))) => a@ == b@,
            (None, Ok(None)) => true,
            _ => false,
        },
        final(small).mem@ == mem@,
        final(small).ring@ == final(ring)@,
{
}

/// The loans of a small ring are resolved as those of a ring are.
pub proof fn law_small_loans_resolve(
    loan: &mut LoomLoan,
    small: &mut LoomRing,
    committed: bool,
    twin: &mut Loan,
    ring: &mut SpmcRingBuffer<u64>,
    mem: &mut RingMemory<u64>,
    r: Result<(), ShmRingError>,
    aborted: LoomLoan,
    one: &mut LoomRing,
    abort_twin: Loan,
    abort_ring: &mut SpmcRingBuffer<u64>,
    dropped: LoomLoan,
    two: &mut LoomRing,
    drop_twin: Loan,
    drop_ring: &mut SpmcRingBuffer<u64>,
    drop_mem: &mut RingMemory<u64>,
)
    requires
        call_ensures(LoomLoan::commit, (loan, small), committed),
        old(twin)@ == old(loan)@,
        old(ring)@ == old(small).ring@,
        *old(mem) == old(small).mem,
        call_ensures(Loan::commit::<u64>, (twin, ring, mem), r),
        call_ensures(LoomLoan::abort, (aborted, one), ()),
        abort_twin@ == aborted@,
        old(abort_ring)@ == old(one).ring@,
        call_ensures(Loan::abort::<u64>, (abort_twin, abort_ring), ()),
        call_ensures(LoomLoan::drop, (dropped, two), ()),
        drop_twin@ == dropped@,
        old(drop_ring)@ == old(two).ring@,
        *old(drop_mem) == old(two).mem,
        call_ensures(Loan::drop::<u64>, (drop_twin, drop_ring, drop_mem), ()),
    ensures
        committed <==> r is Ok,
        final(loan)@ == final(twin)@,
        final(small).ring@ == final(ring)@,
        final(small).mem@ == final(mem)@,
        final(one).ring@ == final(abort_ring)@,
        final(one).mem@ == old(one).mem@,
        final(two).ring@ == final(drop_ring)@,
        final(two).mem@ == final(drop_mem)@,
{
}

/// A loan of a small ring shows its index and the message in the slot of its
/// index; the ring shows its push counter.
pub proof fn law_small_loan_view(
    loan: &LoomLoan,
    ring: &LoomRing,
    value: u64,
    index: u64,
    total: u64,
)
    requires
        call_ensures(LoomLoan::value, (loan, ring), value),
        call_ensures(LoomLoan::index, (loan,), index),
        call_ensures(LoomRing::total_written, (ring,), total),
    ensures
        index == loan@.index,
        value == ring.mem.slots@[index as int % (ring.mem.header.capacity_mask + 1)],
        total == ring.mem.header.total_written,
{
}

} // verus!
