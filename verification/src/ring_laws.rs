//! What the operations of a ring promise, over the words and slots of its
//! memory.
//!
//! The laws here speak of calls: their premises are that a call was made on
//! these arguments and gave this result, and what they conclude is said of the
//! arguments' fields and of the result alone. They are what a caller may rely
//! on without knowing how [`crate::ring`] phrases its contracts, and they say
//! how calls relate that follow one another.

use vstd::arithmetic::power2::*;
use vstd::prelude::*;

use crate::error::ShmRingError;
use crate::header::RingHeader;
use crate::ring::{
    available, check_reader, next_slot, slot_index, slot_offset, slowest_lag_of, RingMemory,
    SpmcRingBuffer,
};

verus! {

/// The slowest of some cursors is one of them, and none is behind it.
proof fn lemma_slowest_cursor<T>(mem: &RingMemory<T>)
    requires
        1 <= mem.header.num_readers <= 8,
    ensures
        exists|j: int|
            0 <= j < mem.header.num_readers && mem@.slowest_cursor()
                == #[trigger] mem.header.read_indices[j],
        forall|k: int|
            0 <= k < mem.header.num_readers ==> mem@.slowest_cursor()
                <= #[trigger] mem.header.read_indices[k],
{
    let cursors = mem@.header.read_indices.take(mem.header.num_readers as int);
    crate::header::lemma_slowest(cursors);
    let j = choose|j: int|
        0 <= j < cursors.len() && #[trigger] cursors[j] == crate::header::slowest(cursors);
    assert(cursors[j] == mem.header.read_indices[j]);
    assert forall|k: int| 0 <= k < mem.header.num_readers implies mem@.slowest_cursor()
        <= #[trigger] mem.header.read_indices[k] by {
        assert(cursors[k] == mem.header.read_indices[k]);
    }
}

// ---------------------------------------------------------------------------
// When an operation may be called
// ---------------------------------------------------------------------------

/// Nothing but the shape of the memory is asked of a caller: a power-of-two
/// capacity that the slots cover and the handle knows, and a cursor for whom
/// the operation concerns. Whatever the counters say, every operation may be
/// called.
pub proof fn law_operations_may_be_called<T: Copy>(
    ring: &mut SpmcRingBuffer<T>,
    mem: &mut RingMemory<T>,
    handle: &SpmcRingBuffer<T>,
    shared: &RingMemory<T>,
    value: &T,
    reader_id: usize,
)
    requires
        is_pow2(old(mem).header.capacity_mask + 1),
        old(mem).header.capacity_mask + 1 <= old(mem).slots@.len(),
        old(ring)@.capacity == old(mem).header.capacity_mask + 1,
        old(ring)@.claim_base.len() == 8,
        old(ring)@.loan_depth.len() == 8,
        is_pow2(shared.header.capacity_mask + 1),
        shared.header.capacity_mask + 1 <= shared.slots@.len(),
        handle@.capacity == shared.header.capacity_mask + 1,
        handle@.claim_base.len() == 8,
        handle@.loan_depth.len() == 8,
    ensures
        old(mem).header.num_readers <= 8 ==> call_requires(
            SpmcRingBuffer::<T>::try_push,
            (ring, mem, value),
        ),
        reader_id < 8 || reader_id >= old(mem).header.num_readers ==> call_requires(
            SpmcRingBuffer::<T>::try_pop,
            (ring, mem, reader_id),
        ),
        reader_id < 8 || reader_id >= shared.header.num_readers ==> {
            &&& call_requires(SpmcRingBuffer::<T>::peek, (handle, shared, reader_id))
            &&& call_requires(SpmcRingBuffer::<T>::len, (handle, shared, reader_id))
            &&& call_requires(SpmcRingBuffer::<T>::is_empty, (handle, shared, reader_id))
        },
        shared.header.num_readers <= 8 ==> call_requires(
            SpmcRingBuffer::<T>::slowest_lag,
            (handle, shared),
        ),
{
    assert(old(mem).slots.len() == old(mem).slots@.len());
    assert(shared.slots.len() == shared.slots@.len());
}

// ---------------------------------------------------------------------------
// Pushing
// ---------------------------------------------------------------------------

/// A push is accepted exactly when some participant is not ahead of the
/// producer and all those lag it by less than the capacity.
pub proof fn law_push_accepted_when_there_is_room<T: Copy>(
    ring: &mut SpmcRingBuffer<T>,
    mem: &mut RingMemory<T>,
    value: &T,
    pushed: bool,
)
    requires
        call_ensures(SpmcRingBuffer::<T>::try_push, (ring, mem, value), pushed),
        old(mem).header.num_readers <= 8,
        old(mem).header.write_idx < u64::MAX || 1 <= old(mem).header.num_readers,
    ensures
        ({
            let h = old(mem).header;
            pushed <==> {
                &&& exists|j: int|
                    0 <= j < h.num_readers && #[trigger] h.read_indices[j] <= h.write_idx
                &&& forall|k: int|
                    0 <= k < h.num_readers && #[trigger] h.read_indices[k] <= h.write_idx
                        ==> h.write_idx - h.read_indices[k] <= h.capacity_mask
            }
        }),
{
    let h = old(mem).header;
    if h.num_readers > 0 {
        lemma_slowest_cursor(old(mem));
    } else {
        assert(old(mem)@.header.read_indices.take(0).len() == 0);
    }
}

/// An accepted push writes the message into one slot, that of its stream
/// index, and advances the write index and the push counter by one, wrapping.
/// It touches nothing else, and a refused push touches nothing at all.
pub proof fn law_push_writes_one_slot<T: Copy>(
    ring: &mut SpmcRingBuffer<T>,
    mem: &mut RingMemory<T>,
    value: &T,
    pushed: bool,
)
    requires
        call_ensures(SpmcRingBuffer::<T>::try_push, (ring, mem, value), pushed),
        old(mem).header.capacity_mask < old(mem).slots@.len(),
    ensures
        final(ring)@ == old(ring)@,
        ({
            let h = old(mem).header;
            let g = final(mem).header;
            let at = h.write_idx as int % (h.capacity_mask + 1);
            &&& g.magic == h.magic
            &&& g.version == h.version
            &&& g.num_readers == h.num_readers
            &&& g.capacity_mask == h.capacity_mask
            &&& g.read_indices@ == h.read_indices@
            &&& final(mem).slots@.len() == old(mem).slots@.len()
            &&& forall|i: int|
                0 <= i < old(mem).slots@.len() && !(pushed && i == at)
                    ==> #[trigger] final(mem).slots@[i] == old(mem).slots@[i]
            &&& pushed ==> {
                &&& final(mem).slots@[at] == *value
                &&& g.write_idx == (h.write_idx + 1) % 0x1_0000_0000_0000_0000
                &&& g.total_written == (h.total_written + 1) % 0x1_0000_0000_0000_0000
            }
            &&& !pushed ==> g.write_idx == h.write_idx && g.total_written == h.total_written
        }),
{
    let h = old(mem).header;
    vstd::arithmetic::div_mod::lemma_mod_bound(h.write_idx as int, h.capacity_mask + 1);
    if h.write_idx < u64::MAX {
        vstd::arithmetic::div_mod::lemma_small_mod(
            (h.write_idx + 1) as nat,
            0x1_0000_0000_0000_0000,
        );
    }
    if h.total_written < u64::MAX {
        vstd::arithmetic::div_mod::lemma_small_mod(
            (h.total_written + 1) as nat,
            0x1_0000_0000_0000_0000,
        );
    }
    let t = final(mem)@;
    assert(t.header.read_indices == final(mem).header.read_indices@);
    assert(t.slots == final(mem).slots@);
    assert(t.header.write_idx == final(mem).header.write_idx);
}

// ---------------------------------------------------------------------------
// Popping and looking
// ---------------------------------------------------------------------------

/// A pop has one result for each situation. A reader that does not participate
/// is refused, and so is one with an open loan; nobody else ever is. One that
/// has caught up gets nothing. Any other gets the message in the slot of its
/// cursor, which advances by one, wrapping. Nothing else changes.
pub proof fn law_pop_outcome<T: Copy>(
    ring: &mut SpmcRingBuffer<T>,
    mem: &mut RingMemory<T>,
    reader_id: usize,
    r: Result<Option<T>, ShmRingError>,
)
    requires
        call_ensures(SpmcRingBuffer::<T>::try_pop, (ring, mem, reader_id), r),
        reader_id < 8 || reader_id >= old(mem).header.num_readers,
    ensures
        final(ring)@ == old(ring)@,
        ({
            let h = old(mem).header;
            let g = final(mem).header;
            let id = reader_id as int;
            let n = h.num_readers;
            let blocked = old(ring)@.loan_depth[id] != 0;
            let empty = h.read_indices[id] == h.write_idx;
            let takes = id < n && !blocked && !empty;
            &&& id >= n ==> {
                &&& r matches Err(ShmRingError::InvalidReaderId { id: refused, max })
                &&& refused == id
                &&& n > 0 ==> max == n - 1
                &&& n == 0 ==> max == 0
            }
            &&& id < n && blocked ==> {
                &&& r matches Err(ShmRingError::LoanOutstanding { reader_id: refused })
                &&& refused == id
            }
            &&& id < n && !blocked && empty ==> r == Ok::<Option<T>, ShmRingError>(None)
            &&& takes ==> {
                &&& r == Ok::<Option<T>, ShmRingError>(
                    Some(old(mem).slots@[h.read_indices[id] as int % (h.capacity_mask + 1)]),
                )
                &&& g.read_indices[id] == (h.read_indices[id] + 1) % 0x1_0000_0000_0000_0000
            }
            &&& forall|k: int|
                0 <= k < 8 && !(takes && k == id) ==> #[trigger] g.read_indices[k]
                    == h.read_indices[k]
            &&& g.write_idx == h.write_idx
            &&& g.total_written == h.total_written
            &&& g.magic == h.magic
            &&& g.version == h.version
            &&& g.num_readers == n
            &&& g.capacity_mask == h.capacity_mask
            &&& final(mem).slots@ == old(mem).slots@
        }),
{
    let h = old(mem).header;
    let id = reader_id as int;
    let t = final(mem)@;
    assert(t.header.read_indices == final(mem).header.read_indices@);
    assert(t.slots == final(mem).slots@);
    assert(t.header.write_idx == final(mem).header.write_idx);
    if id < h.num_readers && h.read_indices[id] < u64::MAX {
        vstd::arithmetic::div_mod::lemma_small_mod(
            (h.read_indices[id] + 1) as nat,
            0x1_0000_0000_0000_0000,
        );
    }
}

/// A look is a pop that does not consume: on the same memory it gives what a
/// pop by a reader without open loans would.
pub proof fn law_peek_agrees_with_pop<T: Copy>(
    ring: &mut SpmcRingBuffer<T>,
    mem: &mut RingMemory<T>,
    handle: &SpmcRingBuffer<T>,
    shared: &RingMemory<T>,
    reader_id: usize,
    popped: Result<Option<T>, ShmRingError>,
    peeked: Result<Option<&T>, ShmRingError>,
)
    requires
        call_ensures(SpmcRingBuffer::<T>::try_pop, (ring, mem, reader_id), popped),
        call_ensures(SpmcRingBuffer::<T>::peek, (handle, shared, reader_id), peeked),
        *shared == *old(mem),
        reader_id < 8,
        old(ring)@.loan_depth[reader_id as int] == 0,
    ensures
        match (popped, peeked) {
            (Ok(Some(v)), Ok(Some(p))) => v == *p,
            (Ok(None), Ok(None)) => true,
            (
                Err(ShmRingError::InvalidReaderId { id, max }),
                Err(ShmRingError::InvalidReaderId { id: i, max: m }),
            ) => id == i && max == m,
            _ => false,
        },
{
}

/// What a look gives: the message in the slot of the reader's cursor, nothing
/// to a reader that has caught up, and a refusal to one that does not
/// participate only.
pub proof fn law_peek_outcome<T: Copy>(
    handle: &SpmcRingBuffer<T>,
    mem: &RingMemory<T>,
    reader_id: usize,
    r: Result<Option<&T>, ShmRingError>,
)
    requires
        call_ensures(SpmcRingBuffer::<T>::peek, (handle, mem, reader_id), r),
    ensures
        ({
            let h = mem.header;
            let id = reader_id as int;
            if id >= h.num_readers {
                &&& r matches Err(ShmRingError::InvalidReaderId { id: refused, max })
                &&& refused == id
                &&& h.num_readers > 0 ==> max == h.num_readers - 1
                &&& h.num_readers == 0 ==> max == 0
            } else if h.read_indices[id] == h.write_idx {
                r == Ok::<Option<&T>, ShmRingError>(None)
            } else {
                &&& r matches Ok(Some(v))
                &&& *v == mem.slots@[h.read_indices[id] as int % (h.capacity_mask + 1)]
            }
        }),
{
}

// ---------------------------------------------------------------------------
// Diagnostics
// ---------------------------------------------------------------------------

/// The diagnostics report the words: the number of messages between a
/// reader's cursor and the write index (in wrapping arithmetic), whether it is
/// zero, the largest such number among the participants if none is ahead, and
/// the counters themselves.
pub proof fn law_diagnostics<T: Copy>(
    handle: &SpmcRingBuffer<T>,
    mem: &RingMemory<T>,
    reader_id: usize,
    len: Result<u64, ShmRingError>,
    empty: Result<bool, ShmRingError>,
    lag: u64,
    count: usize,
    total: u64,
)
    requires
        call_ensures(SpmcRingBuffer::<T>::len, (handle, mem, reader_id), len),
        call_ensures(SpmcRingBuffer::<T>::is_empty, (handle, mem, reader_id), empty),
        call_ensures(SpmcRingBuffer::<T>::slowest_lag, (handle, mem), lag),
        call_ensures(SpmcRingBuffer::<T>::reader_count, (handle, mem), count),
        call_ensures(SpmcRingBuffer::<T>::total_written, (handle, mem), total),
        mem.header.num_readers <= 8,
    ensures
        ({
            let h = mem.header;
            let id = reader_id as int;
            &&& count == h.num_readers
            &&& total == h.total_written
            &&& id < h.num_readers ==> {
                &&& len matches Ok(n)
                &&& (h.read_indices[id] + n) % 0x1_0000_0000_0000_0000 == h.write_idx
                &&& empty == Ok::<bool, ShmRingError>(n == 0)
                &&& empty == Ok::<bool, ShmRingError>(h.read_indices[id] == h.write_idx)
            }
            &&& id >= h.num_readers ==> {
                &&& len matches Err(ShmRingError::InvalidReaderId { id: i, max: m })
                &&& empty matches Err(ShmRingError::InvalidReaderId { id: j, max: n })
                &&& i == id && j == id
                &&& h.num_readers > 0 ==> m == h.num_readers - 1 && n == m
                &&& h.num_readers == 0 ==> m == 0 && n == 0
            }
            &&& h.num_readers > 0 && (forall|k: int|
                0 <= k < h.num_readers ==> #[trigger] h.read_indices[k] <= h.write_idx) ==> {
                &&& exists|j: int|
                    0 <= j < h.num_readers && lag == h.write_idx - #[trigger] h.read_indices[j]
                &&& forall|k: int|
                    0 <= k < h.num_readers ==> h.write_idx - #[trigger] h.read_indices[k] <= lag
            }
        }),
{
    let h = mem.header;
    let id = reader_id as int;
    if h.num_readers > 0 {
        lemma_slowest_cursor(mem);
    }
    if id < h.num_readers {
        let c = h.read_indices[id];
        if c <= h.write_idx {
            vstd::arithmetic::div_mod::lemma_small_mod(
                h.write_idx as nat,
                0x1_0000_0000_0000_0000,
            );
        } else {
            vstd::arithmetic::div_mod::lemma_fundamental_div_mod_converse(
                h.write_idx + 0x1_0000_0000_0000_0000,
                0x1_0000_0000_0000_0000,
                1,
                h.write_idx as int,
            );
        }
        if h.num_readers > 0 && (forall|k: int|
            0 <= k < h.num_readers ==> #[trigger] h.read_indices[k] <= h.write_idx) {
            assert(h.read_indices[id] <= h.write_idx);
        }
    }
}

/// The functions on a header alone agree with the diagnostics of a ring.
pub proof fn law_header_diagnostics(
    h: &RingHeader,
    capacity: usize,
    reader_id: usize,
    allowed: Result<(), ShmRingError>,
    count: Result<u64, ShmRingError>,
    slot: Result<Option<usize>, ShmRingError>,
    lag: u64,
)
    requires
        call_ensures(check_reader, (h.num_readers as usize, reader_id), allowed),
        call_ensures(available, (h, reader_id), count),
        call_ensures(next_slot, (h, capacity, reader_id), slot),
        call_ensures(slowest_lag_of, (h,), lag),
        h.num_readers <= 8,
    ensures
        ({
            let id = reader_id as int;
            &&& allowed is Ok <==> id < h.num_readers
            &&& id < h.num_readers ==> {
                &&& count matches Ok(n)
                &&& h.write_idx >= h.read_indices[id] ==> n == h.write_idx - h.read_indices[id]
                &&& h.write_idx < h.read_indices[id] ==> n == h.write_idx - h.read_indices[id]
                    + 0x1_0000_0000_0000_0000
                &&& slot == Ok::<Option<usize>, ShmRingError>(
                    if h.read_indices[id] == h.write_idx {
                        None
                    } else {
                        Some((h.read_indices[id] as int % capacity as int) as usize)
                    },
                )
            }
            &&& id >= h.num_readers ==> {
                &&& allowed matches Err(ShmRingError::InvalidReaderId { id: a, max: x })
                &&& count matches Err(ShmRingError::InvalidReaderId { id: b, max: y })
                &&& slot matches Err(ShmRingError::InvalidReaderId { id: c, max: z })
                &&& a == id && b == id && c == id
                &&& h.num_readers > 0 ==> x == h.num_readers - 1 && y == x && z == x
                &&& h.num_readers == 0 ==> x == 0 && y == 0 && z == 0
            }
            &&& h.num_readers > 0 && (forall|k: int|
                0 <= k < h.num_readers ==> #[trigger] h.read_indices[k] <= h.write_idx) ==> {
                &&& exists|j: int|
                    0 <= j < h.num_readers && lag == h.write_idx - #[trigger] h.read_indices[j]
                &&& forall|k: int|
                    0 <= k < h.num_readers ==> h.write_idx - #[trigger] h.read_indices[k] <= lag
            }
        }),
        call_requires(check_reader, (h.num_readers as usize, reader_id)),
        call_requires(slowest_lag_of, (h,)),
        reader_id < 8 || reader_id >= h.num_readers ==> call_requires(available, (h, reader_id)),
        (reader_id < 8 || reader_id >= h.num_readers) && is_pow2(capacity as int) ==> call_requires(
            next_slot,
            (h, capacity, reader_id),
        ),
{
    let cursors = h@.read_indices.take(h.num_readers as int);
    crate::header::lemma_slowest(cursors);
    if h.num_readers > 0 {
        let j = choose|j: int|
            0 <= j < cursors.len() && #[trigger] cursors[j] == crate::header::slowest(cursors);
        assert(cursors[j] == h.read_indices[j]);
        assert forall|k: int| 0 <= k < h.num_readers implies crate::header::slowest(cursors)
            <= #[trigger] h.read_indices[k] by {
            assert(cursors[k] == h.read_indices[k]);
        }
    }
}

/// Where a message lies: its slot is its stream index modulo the capacity, and
/// the slots follow the header, which takes 256 bytes, without gaps.
pub proof fn law_slot_position<T>(idx: u64, capacity: usize, slot: usize, offset: usize)
    requires
        call_ensures(slot_index, (idx, capacity), slot),
        call_ensures(slot_offset::<T>, (idx, capacity), offset),
        capacity > 0,
    ensures
        slot < capacity,
        exists|q: int| idx == #[trigger] (q * capacity) + slot,
        offset == 256 + slot * vstd::layout::size_of::<T>(),
        is_pow2(capacity as int) ==> call_requires(slot_index, (idx, capacity)),
        is_pow2(capacity as int) && vstd::layout::align_of::<T>() <= 64 && 256 + capacity
            * vstd::layout::size_of::<T>() <= usize::MAX ==> call_requires(
            slot_offset::<T>,
            (idx, capacity),
        ),
{
    vstd::arithmetic::div_mod::lemma_fundamental_div_mod(idx as int, capacity as int);
    let q = idx as int / capacity as int;
    assert(q * capacity == capacity * q) by (nonlinear_arith);
    assert(idx == q * capacity + slot);
}

// ---------------------------------------------------------------------------
// Calls that follow one another
// ---------------------------------------------------------------------------

/// First in, first out: a reader that had caught up when a message was
/// accepted gets that message from its next pop, and then nothing.
pub proof fn law_pushed_message_is_popped<T: Copy>(
    producer: &mut SpmcRingBuffer<T>,
    mem: &mut RingMemory<T>,
    value: &T,
    reader: &mut SpmcRingBuffer<T>,
    later: &mut RingMemory<T>,
    reader_id: usize,
    r: Result<Option<T>, ShmRingError>,
    again: &mut RingMemory<T>,
    last: Result<Option<T>, ShmRingError>,
)
    requires
        call_ensures(SpmcRingBuffer::<T>::try_push, (producer, mem, value), true),
        old(mem).header.capacity_mask < old(mem).slots@.len(),
        *old(later) == *final(mem),
        call_ensures(SpmcRingBuffer::<T>::try_pop, (reader, later, reader_id), r),
        *old(again) == *final(later),
        call_ensures(SpmcRingBuffer::<T>::try_pop, (reader, again, reader_id), last),
        reader_id < 8,
        reader_id < old(mem).header.num_readers,
        old(reader)@.loan_depth[reader_id as int] == 0,
        old(mem).header.read_indices[reader_id as int] == old(mem).header.write_idx,
        old(mem).header.write_idx < u64::MAX,
    ensures
        r == Ok::<Option<T>, ShmRingError>(Some(*value)),
        last == Ok::<Option<T>, ShmRingError>(None),
{
    law_push_writes_one_slot(producer, mem, value, true);
    law_pop_outcome(reader, later, reader_id, r);
    law_pop_outcome(reader, again, reader_id, last);
    vstd::arithmetic::div_mod::lemma_small_mod(
        (old(mem).header.write_idx + 1) as nat,
        0x1_0000_0000_0000_0000,
    );
    assert(old(later).header.read_indices[reader_id as int] == old(
        mem,
    ).header.read_indices@[reader_id as int]);
}

/// Nothing unread is overwritten: what a reader within reach of the producer
/// is about to read, it still reads after any push.
pub proof fn law_push_keeps_unread_messages<T: Copy>(
    producer: &mut SpmcRingBuffer<T>,
    mem: &mut RingMemory<T>,
    value: &T,
    pushed: bool,
    handle: &SpmcRingBuffer<T>,
    before: &RingMemory<T>,
    after: &RingMemory<T>,
    reader_id: usize,
    first: Result<Option<&T>, ShmRingError>,
    second: Result<Option<&T>, ShmRingError>,
)
    requires
        *before == *old(mem),
        call_ensures(SpmcRingBuffer::<T>::peek, (handle, before, reader_id), first),
        call_ensures(SpmcRingBuffer::<T>::try_push, (producer, mem, value), pushed),
        *after == *final(mem),
        call_ensures(SpmcRingBuffer::<T>::peek, (handle, after, reader_id), second),
        old(mem).header.capacity_mask < old(mem).slots@.len(),
        old(mem).header.num_readers <= 8,
        reader_id < old(mem).header.num_readers,
        old(mem).header.write_idx < u64::MAX,
        old(mem).header.read_indices[reader_id as int] < old(mem).header.write_idx,
    ensures
        first matches Ok(Some(a)) && second matches Ok(Some(b)) && *a == *b,
{
    law_peek_outcome(handle, before, reader_id, first);
    law_peek_outcome(handle, after, reader_id, second);
    law_push_writes_one_slot(producer, mem, value, pushed);
    law_push_accepted_when_there_is_room(producer, mem, value, pushed);
    let h = old(mem).header;
    let c = h.read_indices[reader_id as int];
    let cap = h.capacity_mask + 1;
    assert(final(mem).header.read_indices@[reader_id as int] == c);
    vstd::arithmetic::div_mod::lemma_mod_bound(c as int, cap);
    vstd::arithmetic::div_mod::lemma_small_mod(
        (h.write_idx + 1) as nat,
        0x1_0000_0000_0000_0000,
    );
    if pushed {
        crate::ring::lemma_distinct_slots(c as int, h.write_idx as int, cap);
    }
}

/// Readers are independent: a pop of one reader changes nothing for another,
/// which gets from its next pop what it would have got before.
pub proof fn law_readers_are_independent<T: Copy>(
    one: &mut SpmcRingBuffer<T>,
    mem: &mut RingMemory<T>,
    reader_id: usize,
    popped: Result<Option<T>, ShmRingError>,
    other: &mut SpmcRingBuffer<T>,
    before: &mut RingMemory<T>,
    after: &mut RingMemory<T>,
    other_id: usize,
    first: Result<Option<T>, ShmRingError>,
    second: Result<Option<T>, ShmRingError>,
)
    requires
        reader_id != other_id,
        reader_id < 8,
        other_id < 8,
        *old(before) == *old(mem),
        call_ensures(SpmcRingBuffer::<T>::try_pop, (other, before, other_id), first),
        call_ensures(SpmcRingBuffer::<T>::try_pop, (one, mem, reader_id), popped),
        *old(after) == *final(mem),
        call_ensures(SpmcRingBuffer::<T>::try_pop, (other, after, other_id), second),
    ensures
        first is Ok <==> second is Ok,
        first is Ok ==> first == second,
{
    law_pop_outcome(one, mem, reader_id, popped);
    law_pop_outcome(other, before, other_id, first);
    law_pop_outcome(other, after, other_id, second);
    assert(final(mem).header.read_indices[other_id as int] == old(
        mem,
    ).header.read_indices[other_id as int]);
}

/// Backpressure is lifted by the readers alone: a refused push is refused
/// again until a cursor moves, and no number of attempts changes the ring.
pub proof fn law_refused_push_is_refused_again<T: Copy>(
    ring: &mut SpmcRingBuffer<T>,
    mem: &mut RingMemory<T>,
    value: &T,
    later: &mut RingMemory<T>,
    other: &T,
    pushed: bool,
)
    requires
        call_ensures(SpmcRingBuffer::<T>::try_push, (ring, mem, value), false),
        *old(later) == *final(mem),
        call_ensures(SpmcRingBuffer::<T>::try_push, (ring, later, other), pushed),
    ensures
        !pushed,
        final(later)@ == old(mem)@,
{
}

} // verus!
