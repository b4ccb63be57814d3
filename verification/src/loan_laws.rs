//! What claims and loans promise, over the words of the memory and of the
//! handle.
//!
//! As in [`crate::ring_laws`], the premises are calls and their results. Of a
//! handle the laws read, per reader, the head of its claim pipeline and the
//! number of its open loans.

use vstd::arithmetic::power2::*;
use vstd::prelude::*;

use crate::error::ShmRingError;
use crate::loan::Loan;
use crate::protocol::ResolveMode;
use crate::ring::{RingMemory, SpmcRingBuffer};

verus! {

/// Adding one, wrapping.
proof fn lemma_add_one(x: u64)
    ensures
        crate::ring::succ(x) == (x + 1) % 0x1_0000_0000_0000_0000,
{
    if x < u64::MAX {
        vstd::arithmetic::div_mod::lemma_small_mod((x + 1) as nat, 0x1_0000_0000_0000_0000);
    }
}

/// Taking one away, wrapping.
proof fn lemma_take_one(x: u64)
    ensures
        (crate::ring::pred(x) + 1) % 0x1_0000_0000_0000_0000 == x,
{
    if x > 0 {
        vstd::arithmetic::div_mod::lemma_small_mod(x as nat, 0x1_0000_0000_0000_0000);
    }
}

/// A claim asks of its caller what a pop does, and no loan operation asks
/// anything.
pub proof fn law_loans_may_be_used<T: Copy>(
    ring: &mut SpmcRingBuffer<T>,
    mem: &mut RingMemory<T>,
    shared: &RingMemory<T>,
    reader_id: usize,
    loan: &mut Loan,
    owned: Loan,
)
    requires
        is_pow2(shared.header.capacity_mask + 1),
        shared.header.capacity_mask + 1 <= shared.slots@.len(),
        old(ring)@.capacity == shared.header.capacity_mask + 1,
        old(ring)@.claim_base.len() == 8,
        old(ring)@.loan_depth.len() == 8,
        reader_id < 8 || reader_id >= shared.header.num_readers,
    ensures
        call_requires(SpmcRingBuffer::<T>::claim, (ring, shared, reader_id)),
        call_requires(Loan::commit::<T>, (loan, ring, mem)),
        call_requires(Loan::abort::<T>, (owned, ring)),
        call_requires(Loan::drop::<T>, (owned, ring, mem)),
        call_requires(Loan::value::<T>, (&owned, shared)),
{
    assert(shared.slots.len() == shared.slots@.len());
}

/// A claim is for the further of the reader's cursor and the head of its own
/// pipeline, and succeeds exactly when a message is published there. It moves
/// that head past the index, counts one more open loan of that reader, and
/// changes nothing for any other. A claim that gives nothing changes nothing;
/// only a reader that does not participate is refused.
pub proof fn law_claim_outcome<T: Copy>(
    ring: &mut SpmcRingBuffer<T>,
    mem: &RingMemory<T>,
    reader_id: usize,
    r: Result<Option<Loan>, ShmRingError>,
)
    requires
        call_ensures(SpmcRingBuffer::<T>::claim, (ring, mem, reader_id), r),
        old(ring)@.claim_base.len() == 8,
        old(ring)@.loan_depth.len() == 8,
        reader_id < 8 || reader_id >= mem.header.num_readers,
    ensures
        ({
            let h = mem.header;
            let id = reader_id as int;
            let head = old(ring)@.claim_base[id];
            let cursor = h.read_indices[id];
            &&& id >= h.num_readers ==> {
                &&& r matches Err(ShmRingError::InvalidReaderId { id: refused, max })
                &&& refused == id
                &&& h.num_readers > 0 ==> max == h.num_readers - 1
                &&& h.num_readers == 0 ==> max == 0
                &&& final(ring)@ == old(ring)@
            }
            &&& id < h.num_readers && (head >= h.write_idx || cursor >= h.write_idx) ==> {
                &&& r matches Ok(claimed)
                &&& claimed is None
                &&& final(ring)@ == old(ring)@
            }
            &&& id < h.num_readers && head < h.write_idx && cursor < h.write_idx ==> {
                &&& r matches Ok(Some(loan))
                &&& loan@.reader_id == id
                &&& !loan@.resolved
                &&& loan@.index >= head
                &&& loan@.index >= cursor
                &&& loan@.index == head || loan@.index == cursor
                &&& final(ring)@.capacity == old(ring)@.capacity
                &&& final(ring)@.path == old(ring)@.path
                &&& final(ring)@.claim_base.len() == 8
                &&& final(ring)@.loan_depth.len() == 8
                &&& final(ring)@.claim_base[id] == loan@.index + 1
                &&& final(ring)@.loan_depth[id] == (old(ring)@.loan_depth[id] + 1)
                    % 0x1_0000_0000_0000_0000
                &&& forall|k: int|
                    0 <= k < 8 && k != id ==> #[trigger] final(ring)@.claim_base[k] == old(
                        ring,
                    )@.claim_base[k]
                &&& forall|k: int|
                    0 <= k < 8 && k != id ==> #[trigger] final(ring)@.loan_depth[k] == old(
                        ring,
                    )@.loan_depth[k]
            }
        }),
{
    lemma_add_one(old(ring)@.loan_depth[reader_id as int]);
}

/// A commit consumes an open loan at the cursor and nothing else: the cursor
/// moves to the index after it, one open loan less is counted, and the loan is
/// resolved. Off the cursor it is refused, with both positions, and a resolved
/// loan is committed already; then nothing changes.
pub proof fn law_commit_outcome<T: Copy>(
    loan: &mut Loan,
    ring: &mut SpmcRingBuffer<T>,
    mem: &mut RingMemory<T>,
    r: Result<(), ShmRingError>,
)
    requires
        call_ensures(Loan::commit::<T>, (loan, ring, mem), r),
        old(ring)@.claim_base.len() == 8,
        old(ring)@.loan_depth.len() == 8,
    ensures
        0 <= old(loan)@.reader_id < 8,
        final(loan)@.reader_id == old(loan)@.reader_id,
        final(loan)@.index == old(loan)@.index,
        ({
            let id = old(loan)@.reader_id;
            let h = old(mem).header;
            let g = final(mem).header;
            let open = !old(loan)@.resolved;
            let consumes = open && h.read_indices[id] == old(loan)@.index;
            &&& r is Ok <==> !open || consumes
            &&& open && !consumes ==> {
                &&& r matches Err(ShmRingError::LoanNotAtCursor { index, cursor })
                &&& index == old(loan)@.index
                &&& cursor == h.read_indices[id]
            }
            &&& final(loan)@.resolved == (!open || consumes)
            &&& consumes ==> {
                &&& g.read_indices[id] == (h.read_indices[id] + 1) % 0x1_0000_0000_0000_0000
                &&& (final(ring)@.loan_depth[id] + 1) % 0x1_0000_0000_0000_0000 == old(
                    ring,
                )@.loan_depth[id]
            }
            &&& forall|k: int|
                0 <= k < 8 && !(consumes && k == id) ==> #[trigger] g.read_indices[k]
                    == h.read_indices[k]
            &&& forall|k: int|
                0 <= k < 8 && !(consumes && k == id) ==> #[trigger] final(ring)@.loan_depth[k]
                    == old(ring)@.loan_depth[k]
            &&& final(ring)@.claim_base == old(ring)@.claim_base
            &&& final(ring)@.loan_depth.len() == 8
            &&& final(ring)@.capacity == old(ring)@.capacity
            &&& final(ring)@.path == old(ring)@.path
            &&& g.write_idx == h.write_idx
            &&& g.total_written == h.total_written
            &&& g.magic == h.magic
            &&& g.version == h.version
            &&& g.num_readers == h.num_readers
            &&& g.capacity_mask == h.capacity_mask
            &&& final(mem).slots@ == old(mem).slots@
        }),
{
    let id = old(loan)@.reader_id;
    let t = final(mem)@;
    assert(t.header.read_indices == final(mem).header.read_indices@);
    assert(t.slots == final(mem).slots@);
    assert(t.header.write_idx == final(mem).header.write_idx);
    lemma_add_one(old(mem).header.read_indices[id]);
    lemma_take_one(old(ring)@.loan_depth[id]);
}

/// An abort consumes nothing: the head of the reader's pipeline goes back to
/// the loan's index at the latest, and one open loan less is counted. Nobody
/// else is concerned, and aborting a resolved loan does nothing.
pub proof fn law_abort_outcome<T: Copy>(loan: Loan, ring: &mut SpmcRingBuffer<T>)
    requires
        call_ensures(Loan::abort::<T>, (loan, ring), ()),
        old(ring)@.claim_base.len() == 8,
        old(ring)@.loan_depth.len() == 8,
    ensures
        0 <= loan@.reader_id < 8,
        loan@.resolved ==> final(ring)@ == old(ring)@,
        ({
            let id = loan@.reader_id;
            let head = final(ring)@.claim_base[id];
            let was = old(ring)@.claim_base[id];
            &&& !loan@.resolved ==> {
                &&& head <= was
                &&& head <= loan@.index
                &&& head == was || head == loan@.index
                &&& (final(ring)@.loan_depth[id] + 1) % 0x1_0000_0000_0000_0000 == old(
                    ring,
                )@.loan_depth[id]
            }
            &&& forall|k: int|
                0 <= k < 8 && k != id ==> #[trigger] final(ring)@.claim_base[k] == old(
                    ring,
                )@.claim_base[k]
            &&& forall|k: int|
                0 <= k < 8 && k != id ==> #[trigger] final(ring)@.loan_depth[k] == old(
                    ring,
                )@.loan_depth[k]
            &&& final(ring)@.claim_base.len() == 8
            &&& final(ring)@.loan_depth.len() == 8
            &&& final(ring)@.capacity == old(ring)@.capacity
            &&& final(ring)@.path == old(ring)@.path
        }),
{
    lemma_take_one(old(ring)@.loan_depth[loan@.reader_id]);
}

/// A drop consumes an open loan at the cursor, like a commit, and off the
/// cursor it only counts one open loan less. The pipeline is left alone, and
/// dropping a resolved loan does nothing.
pub proof fn law_drop_outcome<T: Copy>(
    loan: Loan,
    ring: &mut SpmcRingBuffer<T>,
    mem: &mut RingMemory<T>,
)
    requires
        call_ensures(Loan::drop::<T>, (loan, ring, mem), ()),
        old(ring)@.claim_base.len() == 8,
        old(ring)@.loan_depth.len() == 8,
    ensures
        0 <= loan@.reader_id < 8,
        ({
            let id = loan@.reader_id;
            let h = old(mem).header;
            let g = final(mem).header;
            let open = !loan@.resolved;
            let consumes = open && h.read_indices[id] == loan@.index;
            &&& consumes ==> g.read_indices[id] == (h.read_indices[id] + 1)
                % 0x1_0000_0000_0000_0000
            &&& open ==> (final(ring)@.loan_depth[id] + 1) % 0x1_0000_0000_0000_0000 == old(
                ring,
            )@.loan_depth[id]
            &&& forall|k: int|
                0 <= k < 8 && !(consumes && k == id) ==> #[trigger] g.read_indices[k]
                    == h.read_indices[k]
            &&& forall|k: int|
                0 <= k < 8 && !(open && k == id) ==> #[trigger] final(ring)@.loan_depth[k] == old(
                    ring,
                )@.loan_depth[k]
            &&& final(ring)@.claim_base == old(ring)@.claim_base
            &&& final(ring)@.loan_depth.len() == 8
            &&& final(ring)@.capacity == old(ring)@.capacity
            &&& final(ring)@.path == old(ring)@.path
            &&& g.write_idx == h.write_idx
            &&& g.total_written == h.total_written
            &&& g.magic == h.magic
            &&& g.version == h.version
            &&& g.num_readers == h.num_readers
            &&& g.capacity_mask == h.capacity_mask
            &&& final(mem).slots@ == old(mem).slots@
        }),
{
    let id = loan@.reader_id;
    let t = final(mem)@;
    assert(t.header.read_indices == final(mem).header.read_indices@);
    assert(t.slots == final(mem).slots@);
    assert(t.header.write_idx == final(mem).header.write_idx);
    lemma_add_one(old(mem).header.read_indices[id]);
    lemma_take_one(old(ring)@.loan_depth[id]);
}

/// What a loan shows: its index, its reader, the message in the slot of its
/// index, and in the file the bytes of that slot, which follow a header of 256
/// bytes.
pub proof fn law_loan_view<T>(
    loan: &Loan,
    mem: &RingMemory<T>,
    capacity: usize,
    file: &[u8],
    index: u64,
    reader_id: usize,
    value: &T,
    bytes: &[u8],
)
    requires
        call_ensures(Loan::index, (loan,), index),
        call_ensures(Loan::reader_id, (loan,), reader_id),
        call_ensures(Loan::value::<T>, (loan, mem), value),
        call_ensures(Loan::as_bytes::<T>, (loan, capacity, file), bytes),
    ensures
        index == loan@.index,
        reader_id == loan@.reader_id,
        *value == mem.slots@[index as int % (mem.header.capacity_mask + 1)],
        ({
            let size = vstd::layout::size_of::<T>() as int;
            let start = 256 + (index as int % capacity as int) * size;
            bytes@ == file@.subrange(start, start + size)
        }),
        is_pow2(capacity as int) && vstd::layout::align_of::<T>() <= 64 && 256 + capacity
            * vstd::layout::size_of::<T>() <= file@.len() ==> call_requires(
            Loan::as_bytes::<T>,
            (loan, capacity, file),
        ),
{
}

// ---------------------------------------------------------------------------
// Calls that follow one another
// ---------------------------------------------------------------------------

/// The pipelines of different readers are independent: a claim of one reader
/// changes nothing for a claim of another on the same handle.
pub proof fn law_claims_of_readers_are_independent<T: Copy>(
    ring: &mut SpmcRingBuffer<T>,
    mem: &RingMemory<T>,
    reader_id: usize,
    claimed: Result<Option<Loan>, ShmRingError>,
    other_id: usize,
    before: &mut SpmcRingBuffer<T>,
    after: &mut SpmcRingBuffer<T>,
    first: Result<Option<Loan>, ShmRingError>,
    second: Result<Option<Loan>, ShmRingError>,
)
    requires
        reader_id != other_id,
        reader_id < 8,
        other_id < 8,
        old(ring)@.claim_base.len() == 8,
        old(ring)@.loan_depth.len() == 8,
        old(before)@ == old(ring)@,
        call_ensures(SpmcRingBuffer::<T>::claim, (before, mem, other_id), first),
        call_ensures(SpmcRingBuffer::<T>::claim, (ring, mem, reader_id), claimed),
        old(after)@ == final(ring)@,
        call_ensures(SpmcRingBuffer::<T>::claim, (after, mem, other_id), second),
    ensures
        match (first, second) {
            (Ok(Some(a)), Ok(Some(b))) => a@ == b@,
            (Ok(None), Ok(None)) => true,
            (Err(_), Err(_)) => true,
            _ => false,
        },
{
    law_claim_outcome(before, mem, other_id, first);
    law_claim_outcome(ring, mem, reader_id, claimed);
    law_claim_outcome(after, mem, other_id, second);
}

/// Resolving a loan of one reader changes nothing for a claim of another:
/// however the loan is resolved, the other's next claim is for the index it
/// was for before.
pub proof fn law_resolution_spares_other_readers<T: Copy>(
    loan: &mut Loan,
    owned: Loan,
    ring: &mut SpmcRingBuffer<T>,
    mem: &mut RingMemory<T>,
    mode: ResolveMode,
    committed: Result<(), ShmRingError>,
    other_id: usize,
    before: &mut SpmcRingBuffer<T>,
    at_first: &RingMemory<T>,
    first: Result<Option<Loan>, ShmRingError>,
    after: &mut SpmcRingBuffer<T>,
    at_second: &RingMemory<T>,
    second: Result<Option<Loan>, ShmRingError>,
)
    requires
        old(ring)@.claim_base.len() == 8,
        old(ring)@.loan_depth.len() == 8,
        other_id < 8,
        mode is Commit ==> {
            &&& call_ensures(Loan::commit::<T>, (loan, ring, mem), committed)
            &&& old(loan)@.reader_id != other_id
        },
        mode is Drop ==> {
            &&& call_ensures(Loan::drop::<T>, (owned, ring, mem), ())
            &&& owned@.reader_id != other_id
        },
        mode is Abort ==> {
            &&& call_ensures(Loan::abort::<T>, (owned, ring), ())
            &&& *final(mem) == *old(mem)
            &&& owned@.reader_id != other_id
        },
        old(before)@ == old(ring)@,
        *at_first == *old(mem),
        call_ensures(SpmcRingBuffer::<T>::claim, (before, at_first, other_id), first),
        old(after)@ == final(ring)@,
        *at_second == *final(mem),
        call_ensures(SpmcRingBuffer::<T>::claim, (after, at_second, other_id), second),
    ensures
        match (first, second) {
            (Ok(Some(a)), Ok(Some(b))) => a@ == b@,
            (Ok(None), Ok(None)) => true,
            (Err(_), Err(_)) => true,
            _ => false,
        },
{
    if mode is Commit {
        law_commit_outcome(loan, ring, mem, committed);
    } else if mode is Drop {
        law_drop_outcome(owned, ring, mem);
    } else {
        law_abort_outcome(owned, ring);
    }
    let o = other_id as int;
    assert(final(ring)@.claim_base[o] == old(ring)@.claim_base[o]);
    assert(final(mem).header.read_indices[o] == old(mem).header.read_indices[o]);
    law_claim_outcome(before, at_first, other_id, first);
    law_claim_outcome(after, at_second, other_id, second);
}

/// Claims of one reader follow one another: the second of two in a row is for
/// the next index, and there is one exactly if a message is published there.
pub proof fn law_claims_are_consecutive<T: Copy>(
    ring: &mut SpmcRingBuffer<T>,
    later: &mut SpmcRingBuffer<T>,
    mem: &RingMemory<T>,
    reader_id: usize,
    loan: Loan,
    r: Result<Option<Loan>, ShmRingError>,
)
    requires
        call_ensures(SpmcRingBuffer::<T>::claim, (ring, mem, reader_id), Ok(Some(loan))),
        old(ring)@.claim_base.len() == 8,
        old(ring)@.loan_depth.len() == 8,
        reader_id < 8,
        old(later)@ == final(ring)@,
        call_ensures(SpmcRingBuffer::<T>::claim, (later, mem, reader_id), r),
    ensures
        loan@.index + 1 < mem.header.write_idx ==> (r matches Ok(Some(next)) && next@.index
            == loan@.index + 1),
        loan@.index + 1 >= mem.header.write_idx ==> (r matches Ok(claimed) && claimed is None),
{
    law_claim_outcome(ring, mem, reader_id, Ok(Some(loan)));
    law_claim_outcome(later, mem, reader_id, r);
}

/// An open loan gates its reader's pops and nobody else's: after a claim by a
/// handle without open loans, a pop of that reader is refused, and one of
/// another reader gives what it gave before.
pub proof fn law_open_loan_gates_its_reader<T: Copy>(
    ring: &mut SpmcRingBuffer<T>,
    shared: &RingMemory<T>,
    reader_id: usize,
    loan: Loan,
    popper: &mut SpmcRingBuffer<T>,
    mem: &mut RingMemory<T>,
    popped: Result<Option<T>, ShmRingError>,
    other_id: usize,
    fresh: &mut SpmcRingBuffer<T>,
    same: &mut RingMemory<T>,
    first: Result<Option<T>, ShmRingError>,
    twin: &mut RingMemory<T>,
    second: Result<Option<T>, ShmRingError>,
)
    requires
        call_ensures(SpmcRingBuffer::<T>::claim, (ring, shared, reader_id), Ok(Some(loan))),
        old(ring)@.claim_base.len() == 8,
        old(ring)@.loan_depth.len() == 8,
        old(ring)@.loan_depth[reader_id as int] < u64::MAX,
        reader_id < 8,
        other_id < 8,
        other_id != reader_id,
        old(popper)@ == final(ring)@,
        *old(mem) == *shared,
        call_ensures(SpmcRingBuffer::<T>::try_pop, (popper, mem, reader_id), popped),
        old(fresh)@ == old(ring)@,
        *old(same) == *shared,
        call_ensures(SpmcRingBuffer::<T>::try_pop, (fresh, same, other_id), first),
        *old(twin) == *shared,
        call_ensures(SpmcRingBuffer::<T>::try_pop, (popper, twin, other_id), second),
    ensures
        popped matches Err(ShmRingError::LoanOutstanding { reader_id: blocked }) && blocked
            == reader_id,
        first is Ok <==> second is Ok,
        first is Ok ==> first == second,
{
    law_claim_outcome(ring, shared, reader_id, Ok(Some(loan)));
    vstd::arithmetic::div_mod::lemma_small_mod(
        (old(ring)@.loan_depth[reader_id as int] + 1) as nat,
        0x1_0000_0000_0000_0000,
    );
    crate::ring_laws::law_pop_outcome(popper, mem, reader_id, popped);
    crate::ring_laws::law_pop_outcome(fresh, same, other_id, first);
    crate::ring_laws::law_pop_outcome(popper, twin, other_id, second);
}

/// Claiming, reading and committing is popping: from a pipeline that is not
/// ahead of the cursor, the loan shows what a pop would have given, its commit
/// succeeds, and memory and loan count end as after the pop.
pub proof fn law_claim_then_commit_is_pop<T: Copy>(
    ring: &mut SpmcRingBuffer<T>,
    shared: &RingMemory<T>,
    reader_id: usize,
    claimed: Result<Option<Loan>, ShmRingError>,
    loan: &mut Loan,
    value: &T,
    committer: &mut SpmcRingBuffer<T>,
    mem: &mut RingMemory<T>,
    committed: Result<(), ShmRingError>,
    popper: &mut SpmcRingBuffer<T>,
    twin: &mut RingMemory<T>,
    popped: Result<Option<T>, ShmRingError>,
)
    requires
        reader_id < 8,
        reader_id < shared.header.num_readers,
        old(ring)@.claim_base.len() == 8,
        old(ring)@.loan_depth.len() == 8,
        old(ring)@.loan_depth[reader_id as int] == 0,
        old(ring)@.claim_base[reader_id as int] <= shared.header.read_indices[reader_id as int],
        shared.header.read_indices[reader_id as int] < shared.header.write_idx,
        call_ensures(SpmcRingBuffer::<T>::claim, (ring, shared, reader_id), claimed),
        claimed == Ok::<Option<Loan>, ShmRingError>(Some(*old(loan))),
        call_ensures(Loan::value::<T>, (&*old(loan), shared), value),
        old(committer)@ == final(ring)@,
        *old(mem) == *shared,
        call_ensures(Loan::commit::<T>, (loan, committer, mem), committed),
        old(popper)@ == old(ring)@,
        *old(twin) == *shared,
        call_ensures(SpmcRingBuffer::<T>::try_pop, (popper, twin, reader_id), popped),
    ensures
        committed is Ok,
        popped == Ok::<Option<T>, ShmRingError>(Some(*value)),
        final(mem).header.read_indices@ == final(twin).header.read_indices@,
        final(mem).header.write_idx == final(twin).header.write_idx,
        final(mem).slots@ == final(twin).slots@,
        final(committer)@.loan_depth[reader_id as int] == 0,
{
    law_claim_outcome(ring, shared, reader_id, claimed);
    law_commit_outcome(loan, committer, mem, committed);
    crate::ring_laws::law_pop_outcome(popper, twin, reader_id, popped);
    let d = final(committer)@.loan_depth[reader_id as int];
    vstd::arithmetic::div_mod::lemma_small_mod(1, 0x1_0000_0000_0000_0000);
    if d < u64::MAX {
        vstd::arithmetic::div_mod::lemma_small_mod((d + 1) as nat, 0x1_0000_0000_0000_0000);
    }
    let a = final(mem).header.read_indices@;
    let b = final(twin).header.read_indices@;
    assert forall|k: int| 0 <= k < 8 implies #[trigger] a[k] == b[k] by {
        assert(a[k] == final(mem).header.read_indices[k]);
        assert(b[k] == final(twin).header.read_indices[k]);
    }
    assert(a =~= b);
}

/// Aborting undoes a claim: the message can be claimed again, and the same
/// message it is.
pub proof fn law_claim_after_abort<T: Copy>(
    ring: &mut SpmcRingBuffer<T>,
    mem: &RingMemory<T>,
    reader_id: usize,
    loan: Loan,
    aborter: &mut SpmcRingBuffer<T>,
    later: &mut SpmcRingBuffer<T>,
    r: Result<Option<Loan>, ShmRingError>,
)
    requires
        reader_id < 8,
        old(ring)@.claim_base.len() == 8,
        old(ring)@.loan_depth.len() == 8,
        call_ensures(SpmcRingBuffer::<T>::claim, (ring, mem, reader_id), Ok(Some(loan))),
        old(aborter)@ == final(ring)@,
        call_ensures(Loan::abort::<T>, (loan, aborter), ()),
        old(later)@ == final(aborter)@,
        call_ensures(SpmcRingBuffer::<T>::claim, (later, mem, reader_id), r),
    ensures
        r matches Ok(Some(again)) && again@ == loan@,
        final(aborter)@.loan_depth[reader_id as int] == old(ring)@.loan_depth[reader_id as int],
{
    law_claim_outcome(ring, mem, reader_id, Ok(Some(loan)));
    law_abort_outcome(loan, aborter);
    law_claim_outcome(later, mem, reader_id, r);
    let id = reader_id as int;
    let was = old(ring)@.loan_depth[id];
    let up = final(ring)@.loan_depth[id];
    let down = final(aborter)@.loan_depth[id];
    if was < u64::MAX {
        vstd::arithmetic::div_mod::lemma_small_mod((was + 1) as nat, 0x1_0000_0000_0000_0000);
    }
    if down < u64::MAX {
        vstd::arithmetic::div_mod::lemma_small_mod((down + 1) as nat, 0x1_0000_0000_0000_0000);
    }
}

/// Commits are in order: of two loans claimed one after the other, the second
/// cannot be committed while the first is at the cursor, and can be once the
/// first is committed.
pub proof fn law_commits_are_in_order<T: Copy>(
    first: &mut Loan,
    second: &mut Loan,
    ring: &mut SpmcRingBuffer<T>,
    mem: &mut RingMemory<T>,
    early: Result<(), ShmRingError>,
    same: &mut Loan,
    committer: &mut SpmcRingBuffer<T>,
    before: &mut RingMemory<T>,
    committed: Result<(), ShmRingError>,
    last: &mut SpmcRingBuffer<T>,
    after: &mut RingMemory<T>,
    late: Result<(), ShmRingError>,
)
    requires
        old(ring)@.claim_base.len() == 8,
        old(ring)@.loan_depth.len() == 8,
        old(first)@.reader_id == old(second)@.reader_id,
        !old(first)@.resolved,
        !old(second)@.resolved,
        old(second)@.index == old(first)@.index + 1,
        0 <= old(first)@.reader_id < 8,
        old(mem).header.read_indices[old(first)@.reader_id] == old(first)@.index,
        call_ensures(Loan::commit::<T>, (second, ring, mem), early),
        old(committer)@ == old(ring)@,
        *old(before) == *old(mem),
        call_ensures(Loan::commit::<T>, (first, committer, before), committed),
        old(same)@ == old(second)@,
        old(last)@ == final(committer)@,
        *old(after) == *final(before),
        call_ensures(Loan::commit::<T>, (same, last, after), late),
    ensures
        early is Err,
        !final(second)@.resolved,
        final(mem)@ == old(mem)@,
        committed is Ok,
        late is Ok,
{
    law_commit_outcome(second, ring, mem, early);
    law_commit_outcome(first, committer, before, committed);
    law_commit_outcome(same, last, after, late);
    vstd::arithmetic::div_mod::lemma_small_mod(
        (old(first)@.index + 1) as nat,
        0x1_0000_0000_0000_0000,
    );
    assert(final(mem)@.header.read_indices =~= old(mem)@.header.read_indices) by {
        let a = final(mem).header.read_indices@;
        let b = old(mem).header.read_indices@;
        assert forall|k: int| 0 <= k < 8 implies #[trigger] a[k] == b[k] by {
            assert(a[k] == final(mem).header.read_indices[k]);
            assert(b[k] == old(mem).header.read_indices[k]);
        }
    }
}

} // verus!
