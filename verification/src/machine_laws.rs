//! What the machines of [`crate::protocol`] promise, and what an access does.
//!
//! As in [`crate::ring_laws`], the premises are calls and their results. An
//! access is pinned down by what later loads give; a machine by what its
//! accesses add up to, which is what the operation of the same name does.

use vstd::arithmetic::power2::*;
use vstd::prelude::*;

use crate::error::ShmRingError;
use crate::loan::Loan;
use crate::protocol::{
    perform, Access, ClaimOp, ClaimOutcome, ClaimStage, MemOrder, PopOp, PopOutcome, PopStage,
    PushOp, PushStage, ResolveMode, ResolveOp, ResolveStage, Word,
};
use crate::ring::{RingMemory, SpmcRingBuffer};

verus! {

// ---------------------------------------------------------------------------
// Accesses
// ---------------------------------------------------------------------------

/// A load gives the word it names and changes nothing.
pub proof fn law_load<T: Copy>(
    mem: &mut RingMemory<T>,
    ring: &mut SpmcRingBuffer<T>,
    word: Word,
    order: MemOrder,
    answer: u64,
)
    requires
        call_ensures(perform::<T>, (mem, ring, Access::Load { word, order }), answer),
        word matches Word::ReadIdx { reader } ==> reader < 8,
        word matches Word::ClaimBase { reader } ==> reader < 8,
        word matches Word::LoanDepth { reader } ==> reader < 8,
    ensures
        match word {
            Word::WriteIdx => answer == old(mem).header.write_idx,
            Word::NumReaders => answer == old(mem).header.num_readers,
            Word::TotalWritten => answer == old(mem).header.total_written,
            Word::ReadIdx { reader } => answer == old(mem).header.read_indices[reader as int],
            Word::ClaimBase { reader } => answer == old(ring)@.claim_base[reader as int],
            Word::LoanDepth { reader } => answer == old(ring)@.loan_depth[reader as int],
        },
        final(mem)@ == old(mem)@,
        final(ring)@ == old(ring)@,
        call_requires(perform::<T>, (mem, ring, Access::Load { word, order })),
{
    let access = Access::Load { word, order };
    assert(final(mem)@ == crate::protocol::memory_after(
        old(mem)@,
        old(ring)@,
        access,
        old(mem)@.slots[0],
    ));
}

/// An access that writes leaves in its word what it should: the value of a
/// store, one more, one less (wrapping), the lesser of two, or the new value if
/// the word held the current one, which it reports. A load of any other word
/// gives what it gave before, and no access of these touches a slot or the
/// identity of the ring.
pub proof fn law_write<T: Copy>(
    mem: &mut RingMemory<T>,
    ring: &mut SpmcRingBuffer<T>,
    access: Access,
    answer: u64,
    word: Word,
    probe: Word,
    order: MemOrder,
    shadow: &mut RingMemory<T>,
    shadow_ring: &mut SpmcRingBuffer<T>,
    was: u64,
    probed: u64,
    later: &mut RingMemory<T>,
    later_ring: &mut SpmcRingBuffer<T>,
    is: u64,
    probed_later: u64,
)
    requires
        call_ensures(perform::<T>, (mem, ring, access), answer),
        match access {
            Access::Store { word: w, .. } => w == word,
            Access::Increment { word: w, .. } => w == word,
            Access::Decrement { word: w, .. } => w == word,
            Access::Lower { word: w, .. } => w == word,
            Access::Exchange { word: w, .. } => w == word,
            _ => false,
        },
        word != Word::NumReaders,
        probe != word,
        word matches Word::ReadIdx { reader } ==> reader < 8,
        word matches Word::ClaimBase { reader } ==> reader < 8,
        word matches Word::LoanDepth { reader } ==> reader < 8,
        probe matches Word::ReadIdx { reader } ==> reader < 8,
        probe matches Word::ClaimBase { reader } ==> reader < 8,
        probe matches Word::LoanDepth { reader } ==> reader < 8,
        old(ring)@.claim_base.len() == 8,
        old(ring)@.loan_depth.len() == 8,
        *old(shadow) == *old(mem),
        old(shadow_ring)@ == old(ring)@,
        call_ensures(perform::<T>, (shadow, shadow_ring, Access::Load { word, order }), was),
        call_ensures(
            perform::<T>,
            (shadow, shadow_ring, Access::Load { word: probe, order }),
            probed,
        ),
        *old(later) == *final(mem),
        old(later_ring)@ == final(ring)@,
        call_ensures(perform::<T>, (later, later_ring, Access::Load { word, order }), is),
        call_ensures(
            perform::<T>,
            (later, later_ring, Access::Load { word: probe, order }),
            probed_later,
        ),
    ensures
        probed_later == probed,
        match access {
            Access::Store { value, .. } => is == value,
            Access::Increment { .. } => is == (was + 1) % 0x1_0000_0000_0000_0000,
            Access::Decrement { .. } => (is + 1) % 0x1_0000_0000_0000_0000 == was,
            Access::Lower { value, .. } => {
                &&& is <= was
                &&& is <= value
                &&& is == was || is == value
            },
            Access::Exchange { current, new, .. } => {
                &&& was == current ==> is == new && answer == 1
                &&& was != current ==> is == was && answer == 0
            },
            _ => false,
        },
        final(mem).slots@ == old(mem).slots@,
        final(mem).header.magic == old(mem).header.magic,
        final(mem).header.version == old(mem).header.version,
        final(mem).header.num_readers == old(mem).header.num_readers,
        final(mem).header.capacity_mask == old(mem).header.capacity_mask,
        final(ring)@.capacity == old(ring)@.capacity,
        final(ring)@.path == old(ring)@.path,
        call_requires(perform::<T>, (mem, ring, access)),
{
    let t = final(mem)@;
    assert(t == crate::protocol::memory_after(old(mem)@, old(ring)@, access, old(mem)@.slots[0]));
    assert(t.slots == final(mem).slots@);
    assert(t.header.magic == final(mem).header.magic);
    assert(t.header.read_indices == final(mem).header.read_indices@);
    law_load(shadow, shadow_ring, word, order, was);
    law_load(shadow, shadow_ring, probe, order, probed);
    law_load(later, later_ring, word, order, is);
    law_load(later, later_ring, probe, order, probed_later);
    if was < u64::MAX {
        vstd::arithmetic::div_mod::lemma_small_mod((was + 1) as nat, 0x1_0000_0000_0000_0000);
    }
    if is < u64::MAX {
        vstd::arithmetic::div_mod::lemma_small_mod((is + 1) as nat, 0x1_0000_0000_0000_0000);
    }
}

// ---------------------------------------------------------------------------
// Machines
// ---------------------------------------------------------------------------

/// The accesses of a push add up to a push: run on memory that nobody else
/// touches, the machine leaves what a push leaves and says what a push says.
pub proof fn law_push_machine_pushes<T: Copy>(
    ring: &mut SpmcRingBuffer<T>,
    mem: &mut RingMemory<T>,
    value: &T,
    pushed: bool,
)
    requires
        call_ensures(SpmcRingBuffer::<T>::try_push, (ring, mem, value), pushed),
        is_pow2(old(mem).header.capacity_mask + 1),
        old(mem).header.capacity_mask + 1 <= old(mem).slots@.len(),
        old(mem).header.num_readers <= 8,
    ensures
        crate::protocol::push_alone(old(mem)@, old(ring)@, PushStage::LoadWrite, *value) == (
            final(mem)@,
            pushed,
        ),
{
    assert(old(mem).slots.len() == old(mem).slots@.len());
    crate::protocol::law_push_alone(old(mem)@, old(ring)@, *value);
}

/// The accesses of a pop add up to a pop.
pub proof fn law_pop_machine_pops<T: Copy>(
    ring: &mut SpmcRingBuffer<T>,
    mem: &mut RingMemory<T>,
    reader_id: usize,
    r: Result<Option<T>, ShmRingError>,
)
    requires
        call_ensures(SpmcRingBuffer::<T>::try_pop, (ring, mem, reader_id), r),
        is_pow2(old(mem).header.capacity_mask + 1),
        old(mem).header.capacity_mask + 1 <= old(mem).slots@.len(),
        reader_id < 8 || reader_id >= old(mem).header.num_readers,
    ensures
        ({
            let (after, held, outcome) = crate::protocol::pop_alone(
                old(mem)@,
                old(ring)@,
                reader_id,
                PopStage::LoadReaders,
                None,
            );
            &&& after == final(mem)@
            &&& match r {
                Ok(Some(v)) => outcome == PopOutcome::Taken && held == Some(v),
                Ok(None) => outcome == PopOutcome::Empty,
                Err(ShmRingError::LoanOutstanding { .. }) => outcome == PopOutcome::Blocked,
                Err(ShmRingError::InvalidReaderId { max, .. }) => outcome
                    == (PopOutcome::InvalidReader { max }),
                Err(_) => false,
            }
        }),
{
    assert(old(mem).slots.len() == old(mem).slots@.len());
    crate::protocol::law_pop_alone(old(mem)@, old(ring)@, reader_id);
}

/// The accesses of a claim add up to a claim.
pub proof fn law_claim_machine_claims<T: Copy>(
    ring: &mut SpmcRingBuffer<T>,
    mem: &RingMemory<T>,
    reader_id: usize,
    r: Result<Option<Loan>, ShmRingError>,
)
    requires
        call_ensures(SpmcRingBuffer::<T>::claim, (ring, mem, reader_id), r),
        is_pow2(mem.header.capacity_mask + 1),
        mem.header.capacity_mask + 1 <= mem.slots@.len(),
        reader_id < 8 || reader_id >= mem.header.num_readers,
        old(ring)@.claim_base.len() == 8,
        old(ring)@.loan_depth.len() == 8,
    ensures
        ({
            let (after, outcome) = crate::protocol::claim_alone(
                mem@,
                old(ring)@,
                reader_id,
                ClaimStage::LoadReaders,
                6,
            );
            &&& after == final(ring)@
            &&& match r {
                Ok(Some(loan)) => outcome == Some(ClaimOutcome::Claimed { idx: loan@.index }),
                Ok(None) => outcome == Some(ClaimOutcome::Nothing),
                Err(ShmRingError::InvalidReaderId { max, .. }) => outcome == Some(
                    ClaimOutcome::InvalidReader { max },
                ),
                Err(_) => false,
            }
        }),
{
    assert(mem.slots.len() == mem.slots@.len());
    crate::protocol::law_claim_alone(
        mem@,
        old(ring)@,
        reader_id,
        ClaimStage::LoadReaders,
        mem@.slots[0],
    );
}

/// The accesses of a resolution add up to the commit or the drop of an open
/// loan.
pub proof fn law_resolve_machine_resolves<T: Copy>(
    loan: &mut Loan,
    ring: &mut SpmcRingBuffer<T>,
    mem: &mut RingMemory<T>,
    r: Result<(), ShmRingError>,
    dropped: Loan,
    other_ring: &mut SpmcRingBuffer<T>,
    other: &mut RingMemory<T>,
)
    requires
        call_ensures(Loan::commit::<T>, (loan, ring, mem), r),
        !old(loan)@.resolved,
        old(loan)@.reader_id < old(mem).header.num_readers,
        is_pow2(old(mem).header.capacity_mask + 1),
        old(mem).header.capacity_mask + 1 <= old(mem).slots@.len(),
        old(ring)@.claim_base.len() == 8,
        old(ring)@.loan_depth.len() == 8,
        dropped@ == old(loan)@,
        old(other_ring)@ == old(ring)@,
        *old(other) == *old(mem),
        call_ensures(Loan::drop::<T>, (dropped, other_ring, other), ()),
    ensures
        ({
            let reader = old(loan)@.reader_id as usize;
            let index = old(loan)@.index;
            let committed = crate::protocol::resolve_alone(
                old(mem)@,
                old(ring)@,
                reader,
                index,
                ResolveMode::Commit,
                ResolveStage::LoadCursor,
                3,
            );
            let released = crate::protocol::resolve_alone(
                old(mem)@,
                old(ring)@,
                reader,
                index,
                ResolveMode::Drop,
                ResolveStage::LoadCursor,
                3,
            );
            &&& committed.0 == final(mem)@
            &&& committed.1 == final(ring)@
            &&& r is Ok <==> committed.2 == ResolveStage::Resolved
            &&& r matches Err(ShmRingError::LoanNotAtCursor { cursor, .. }) ==> committed.2 == (
            ResolveStage::NotAtCursor { cursor })
            &&& released.0 == final(other)@
            &&& released.1 == final(other_ring)@
            &&& released.2 == ResolveStage::Resolved
        }),
{
    assert(old(mem).slots.len() == old(mem).slots@.len());
    let reader = old(loan)@.reader_id as usize;
    assert(reader == old(loan)@.reader_id);
    crate::protocol::law_resolve_alone(old(mem)@, old(ring)@, reader, old(loan)@.index);
}

/// The accesses of an abort add up to an abort.
pub proof fn law_resolve_machine_aborts<T: Copy>(
    loan: Loan,
    ring: &mut SpmcRingBuffer<T>,
    mem: &RingMemory<T>,
)
    requires
        call_ensures(Loan::abort::<T>, (loan, ring), ()),
        !loan@.resolved,
        loan@.reader_id < mem.header.num_readers,
        is_pow2(mem.header.capacity_mask + 1),
        mem.header.capacity_mask + 1 <= mem.slots@.len(),
        old(ring)@.claim_base.len() == 8,
        old(ring)@.loan_depth.len() == 8,
    ensures
        crate::protocol::resolve_alone(
            mem@,
            old(ring)@,
            loan@.reader_id as usize,
            loan@.index,
            ResolveMode::Abort,
            ResolveStage::Rewind,
            3,
        ) == (mem@, final(ring)@, ResolveStage::Resolved),
{
    assert(mem.slots.len() == mem.slots@.len());
    let reader = loan@.reader_id as usize;
    assert(reader == loan@.reader_id);
    crate::protocol::law_resolve_alone(mem@, old(ring)@, reader, loan@.index);
}

/// The message is written before it is published and published before it is
/// counted, whatever the answers: from the slot on, a push goes through with
/// just these accesses, the publication being a release.
pub proof fn law_push_publishes_after_writing(
    op: &mut PushOp,
    second: &mut PushOp,
    third: &mut PushOp,
    w: u64,
    x: u64,
    y: u64,
    z: u64,
    a: Access,
    b: Access,
    c: Access,
    d: Option<bool>,
)
    requires
        old(op).stage == (PushStage::WriteSlot { w }),
        old(op).capacity > 0,
        call_ensures(PushOp::access, (&*old(op),), a),
        call_ensures(PushOp::advance, (op, x), ()),
        *old(second) == *final(op),
        call_ensures(PushOp::access, (&*old(second),), b),
        call_ensures(PushOp::advance, (second, y), ()),
        *old(third) == *final(second),
        call_ensures(PushOp::access, (&*old(third),), c),
        call_ensures(PushOp::advance, (third, z), ()),
        call_ensures(PushOp::outcome, (&*final(third),), d),
    ensures
        a == (Access::WriteSlot { slot: (w as int % old(op).capacity as int) as usize }),
        b matches Access::Store { word: Word::WriteIdx, value, order: MemOrder::Release } && value
            == (w + 1) % 0x1_0000_0000_0000_0000,
        c matches Access::Increment { word: Word::TotalWritten, .. },
        d == Some(true),
{
    if w < u64::MAX {
        vstd::arithmetic::div_mod::lemma_small_mod((w + 1) as nat, 0x1_0000_0000_0000_0000);
    }
}

/// The message is read before the cursor moves, whatever the answers: from the
/// slot on, a pop goes through with just these accesses, the move being a
/// release by one.
pub proof fn law_pop_advances_after_reading<T>(
    op: &mut PopOp,
    second: &mut PopOp,
    at: u64,
    x: u64,
    y: u64,
    a: Access,
    b: Access,
    held: T,
    r: Result<Option<T>, ShmRingError>,
)
    requires
        old(op).stage == (PopStage::ReadSlot { r: at }),
        call_ensures(PopOp::access, (&*old(op),), a),
        call_ensures(PopOp::advance, (op, x), ()),
        *old(second) == *final(op),
        call_ensures(PopOp::access, (&*old(second),), b),
        call_ensures(PopOp::advance, (second, y), ()),
        call_ensures(PopOp::result::<T>, (&*final(second), Some(held)), r),
    ensures
        a == (Access::ReadSlot { slot: (at as int % old(op).capacity as int) as usize }),
        b matches Access::Store { word: Word::ReadIdx { reader }, value, order: MemOrder::Release }
            && reader == old(op).reader && value == (at + 1) % 0x1_0000_0000_0000_0000,
        r == Ok::<Option<T>, ShmRingError>(Some(held)),
{
    if at < u64::MAX {
        vstd::arithmetic::div_mod::lemma_small_mod((at + 1) as nat, 0x1_0000_0000_0000_0000);
    }
}

/// A reservation that fails, because the word moved or for no reason, is begun
/// anew with fresh loads; one that succeeds ends the claim with its index.
pub proof fn law_failed_reservation_is_retried(
    op: &mut ClaimOp,
    base: u64,
    idx: u64,
    a: Access,
    answer: u64,
    b: Access,
    r: Result<Option<u64>, ShmRingError>,
)
    requires
        old(op).stage == (ClaimStage::Reserve { base, idx }),
        call_ensures(ClaimOp::access, (&*old(op),), a),
        call_ensures(ClaimOp::advance, (op, answer), ()),
        call_ensures(ClaimOp::access, (&*final(op),), b),
        answer == 1 ==> call_ensures(ClaimOp::result, (&*final(op),), r),
    ensures
        a matches Access::Exchange { word: Word::ClaimBase { reader }, current, new, .. } && reader
            == old(op).reader && current == base && new == (idx + 1) % 0x1_0000_0000_0000_0000,
        answer != 1 ==> (b matches Access::Load { word: Word::WriteIdx, order: MemOrder::Acquire }),
        answer == 1 ==> b == Access::Done && r == Ok::<Option<u64>, ShmRingError>(Some(idx)),
        final(op).reader == old(op).reader,
{
    if idx < u64::MAX {
        vstd::arithmetic::div_mod::lemma_small_mod((idx + 1) as nat, 0x1_0000_0000_0000_0000);
    }
}

/// The decision of a push after its last cursor depends on the write index and
/// the least cursor seen alone: it goes on exactly if that is not ahead and
/// less than a capacity behind, and is otherwise refused.
pub proof fn law_push_decides_by_the_least_cursor(
    op: &mut PushOp,
    w: u64,
    num_readers: usize,
    least: u64,
    answer: u64,
)
    requires
        num_readers > 0,
        old(op).stage == (PushStage::Scan {
            w,
            num_readers,
            next: (num_readers - 1) as usize,
            least,
        }),
        call_ensures(PushOp::advance, (op, answer), ()),
    ensures
        ({
            let low = if answer < least {
                answer
            } else {
                least
            };
            &&& low <= w < low + old(op).capacity ==> final(op).stage == (
            PushStage::WriteSlot { w })
            &&& !(low <= w < low + old(op).capacity) ==> final(op).stage == (PushStage::Done {
                pushed: false,
            })
        }),
        final(op).capacity == old(op).capacity,
{
}

/// What a resolution does next depends on where the cursor is: at the loan it
/// consumes, elsewhere a commit is refused with that cursor and a drop just
/// releases.
pub proof fn law_resolution_consumes_at_the_cursor(
    op: &mut ResolveOp,
    cursor: u64,
    a: Access,
    b: Access,
)
    requires
        old(op).stage == ResolveStage::LoadCursor,
        call_ensures(ResolveOp::access, (&*old(op),), a),
        call_ensures(ResolveOp::advance, (op, cursor), ()),
        call_ensures(ResolveOp::access, (&*final(op),), b),
    ensures
        a matches Access::Load { word: Word::ReadIdx { reader }, order: MemOrder::Acquire }
            && reader == old(op).reader,
        cursor == old(op).index ==> (b matches Access::Store {
            word: Word::ReadIdx { reader },
            value,
            order: MemOrder::Release,
        } && reader == old(op).reader && value == (cursor + 1) % 0x1_0000_0000_0000_0000),
        cursor != old(op).index && old(op).mode is Commit ==> final(op).stage == (
        ResolveStage::NotAtCursor { cursor }),
        cursor != old(op).index && !(old(op).mode is Commit) ==> (b matches Access::Decrement {
            word: Word::LoanDepth { reader },
            ..
        } && reader == old(op).reader),
{
    if cursor < u64::MAX {
        vstd::arithmetic::div_mod::lemma_small_mod((cursor + 1) as nat, 0x1_0000_0000_0000_0000);
    }
}

/// Results report outcomes one for one.
pub proof fn law_results_report_outcomes<T>(
    pop: &PopOp,
    popped: Option<T>,
    p: Result<Option<T>, ShmRingError>,
    claim: &ClaimOp,
    c: Result<Option<u64>, ShmRingError>,
    resolve: &ResolveOp,
    r: Result<(), ShmRingError>,
    push: &PushOp,
    b: Option<bool>,
)
    requires
        call_ensures(PopOp::result::<T>, (pop, popped), p),
        call_ensures(ClaimOp::result, (claim,), c),
        call_ensures(ResolveOp::result, (resolve,), r),
        call_ensures(PushOp::outcome, (push,), b),
    ensures
        pop.stage matches PopStage::Done { outcome } ==> match outcome {
            PopOutcome::InvalidReader { max } => (p matches Err(
                ShmRingError::InvalidReaderId { id, max: m },
            ) && id == pop.reader && m == max),
            PopOutcome::Blocked => (p matches Err(ShmRingError::LoanOutstanding { reader_id })
                && reader_id == pop.reader),
            PopOutcome::Empty => p == Ok::<Option<T>, ShmRingError>(None),
            PopOutcome::Taken => p == Ok::<Option<T>, ShmRingError>(popped) && popped is Some,
        },
        claim.stage matches ClaimStage::Done { outcome } ==> match outcome {
            ClaimOutcome::InvalidReader { max } => (c matches Err(
                ShmRingError::InvalidReaderId { id, max: m },
            ) && id == claim.reader && m == max),
            ClaimOutcome::Nothing => c == Ok::<Option<u64>, ShmRingError>(None),
            ClaimOutcome::Claimed { idx } => c == Ok::<Option<u64>, ShmRingError>(Some(idx)),
        },
        resolve.stage == ResolveStage::Resolved ==> r is Ok,
        resolve.stage matches ResolveStage::NotAtCursor { cursor } ==> (r matches Err(
            ShmRingError::LoanNotAtCursor { index, cursor: at },
        ) && index == resolve.index && at == cursor),
        push.stage matches PushStage::Done { pushed } ==> b == Some(pushed),
        !(push.stage is Done) ==> b is None,
{
}

/// The machines begin at their first access, and every answer that memory can
/// give may be handed to them.
pub proof fn law_machines_begin(
    capacity: usize,
    reader: usize,
    index: u64,
    mode: ResolveMode,
    push: PushOp,
    pop: PopOp,
    claim: ClaimOp,
    resolve: ResolveOp,
    answer: u64,
    pushing: &mut PushOp,
    popping: &mut PopOp,
    claiming: &mut ClaimOp,
    resolving: &mut ResolveOp,
)
    requires
        call_ensures(PushOp::new, (capacity,), push),
        call_ensures(PopOp::new, (capacity, reader), pop),
        call_ensures(ClaimOp::new, (reader,), claim),
        call_ensures(ResolveOp::new, (reader, index, mode), resolve),
    ensures
        push.capacity == capacity && push.stage == PushStage::LoadWrite,
        pop.capacity == capacity && pop.reader == reader && pop.stage == PopStage::LoadReaders,
        claim.reader == reader && claim.stage == ClaimStage::LoadReaders,
        resolve.reader == reader && resolve.index == index && resolve.mode == mode,
        mode is Abort ==> resolve.stage == ResolveStage::Rewind,
        !(mode is Abort) ==> resolve.stage == ResolveStage::LoadCursor,
        !(old(pushing).stage is LoadReaders) || answer <= 8 ==> call_requires(
            PushOp::advance,
            (pushing, answer),
        ),
        !(old(popping).stage is LoadReaders) || answer <= u32::MAX && (old(popping).reader < 8
            || answer <= old(popping).reader) ==> call_requires(PopOp::advance, (popping, answer)),
        !(old(claiming).stage is LoadReaders) || answer <= u32::MAX && (old(claiming).reader < 8
            || answer <= old(claiming).reader) ==> call_requires(
            ClaimOp::advance,
            (claiming, answer),
        ),
        call_requires(ResolveOp::advance, (resolving, answer)),
        is_pow2(capacity as int) ==> call_requires(PushOp::access, (&push,)) && call_requires(
            PopOp::access,
            (&pop,),
        ),
        call_requires(ClaimOp::access, (&claim,)),
        call_requires(ResolveOp::access, (&resolve,)),
{
}

} // verus!
