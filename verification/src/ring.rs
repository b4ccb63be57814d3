//! The ring: one producer, up to [`MAX_READERS`] independent consumers, flow
//! control by backpressure alone.
//!
//! Two things make up a ring. [`RingMemory`] is what all parties share: the
//! header words and the slots of the mapped file. [`SpmcRingBuffer`] is one
//! party's handle: the capacity it read on open, and its own claim pipeline
//! (see [`crate::loan`]). Any number of handles work on one memory, each
//! operation taking the memory it works on.
//!
//! # Model
//!
//! To reader `r` the ring is a queue: [`RingState::pending`], the messages
//! published and not yet consumed by `r`. A push appends to the queue of
//! every participant, or to none; a pop takes the front of one queue and
//! leaves the others alone. The producer stalls exactly when the slowest
//! participant's queue holds a full capacity, so a slot is never written
//! while any participant may still read it.
//!
//! The words are shared, and whoever may write the file may write nonsense
//! into them. Every operation has a defined outcome whatever the counters say;
//! only the count of readers must not send it past the cursors there are. The
//! queues are those of a memory that is [`RingState::consistent`].

use std::marker::PhantomData;

use vstd::arithmetic::div_mod::*;
use vstd::arithmetic::power2::*;
use vstd::prelude::*;

use crate::error::ShmRingError;
use crate::header::{RingHeader, HEADER_SIZE, MAX_READERS};
use crate::pow2::is_power_of_two;

verus! {

/// The counter after `x`, wrapping like the atomic word it is stored in.
pub open spec fn succ(x: u64) -> u64 {
    if x == u64::MAX {
        0
    } else {
        (x + 1) as u64
    }
}

/// The counter before `x`, wrapping likewise.
pub open spec fn pred(x: u64) -> u64 {
    if x == 0 {
        u64::MAX
    } else {
        (x - 1) as u64
    }
}

/// How far counter `w` is ahead of counter `r`, in wrapping arithmetic.
pub open spec fn distance(w: u64, r: u64) -> u64 {
    if w >= r {
        (w - r) as u64
    } else {
        (w - r + 0x1_0000_0000_0000_0000) as u64
    }
}

/// Bytes of a ring file with `capacity` slots of `slot_size` bytes.
pub open spec fn layout_len(capacity: int, slot_size: int) -> int {
    HEADER_SIZE + capacity * slot_size
}

/// What all parties of a ring share: the header words and the slots.
pub struct RingMemory<T> {
    /// The control block.
    pub header: RingHeader,
    /// The slots, at least `capacity` of them.
    pub slots: Vec<T>,
}

/// The mathematical content of a [`RingMemory`].
#[verifier::ext_equal]
pub struct RingState<T> {
    /// The control block.
    pub header: crate::header::HeaderState,
    /// The slots.
    pub slots: Seq<T>,
}

impl<T> View for RingMemory<T> {
    type V = RingState<T>;

    open spec fn view(&self) -> RingState<T> {
        RingState { header: self.header@, slots: self.slots@ }
    }
}

impl<T> RingState<T> {
    /// Number of slots in use.
    pub open spec fn capacity(self) -> int {
        self.header.capacity_mask + 1
    }

    /// The structure that every operation relies on: a power-of-two capacity
    /// that the slots cover, and a cursor for each of [`MAX_READERS`].
    pub open spec fn shaped(self) -> bool {
        &&& self.header.mask_valid()
        &&& self.capacity() <= self.slots.len()
        &&& self.header.read_indices.len() == MAX_READERS
    }

    /// There are no more participants than cursors. An operation over all
    /// participants relies on it.
    pub open spec fn all_have_cursors(self) -> bool {
        self.header.num_readers <= MAX_READERS
    }

    /// Reader `r` has a cursor if it participates. An operation of that reader
    /// relies on it.
    pub open spec fn has_cursor(self, r: int) -> bool {
        self.participant(r) ==> r < MAX_READERS
    }

    /// Whether reader `r` takes part in backpressure.
    pub open spec fn participant(self, r: int) -> bool {
        0 <= r < self.header.num_readers
    }

    /// Reader `r`'s cursor.
    pub open spec fn cursor(self, r: int) -> u64 {
        self.header.read_indices[r]
    }

    /// The invariant of the protocol: there is a participant, none is ahead
    /// of the producer, none lags it by more than a capacity.
    pub open spec fn consistent(self) -> bool {
        &&& self.shaped()
        &&& 1 <= self.header.num_readers <= MAX_READERS
        &&& forall|r: int|
            self.participant(r) ==> #[trigger] self.cursor(r) <= self.header.write_idx
                && self.header.write_idx - self.cursor(r) <= self.capacity()
    }

    /// The slot that stream index `idx` lands in.
    pub open spec fn slot(self, idx: int) -> int {
        idx % self.capacity()
    }

    /// The message in the slot of stream index `idx`.
    pub open spec fn message(self, idx: int) -> T {
        self.slots[self.slot(idx)]
    }

    /// The messages published and not yet consumed by reader `r`, oldest
    /// first.
    pub open spec fn pending(self, r: int) -> Seq<T> {
        Seq::new(
            (self.header.write_idx - self.cursor(r)) as nat,
            |k: int| self.message(self.cursor(r) + k),
        )
    }

    /// The cursor of the slowest participant.
    pub open spec fn slowest_cursor(self) -> u64 {
        crate::header::slowest(
            self.header.read_indices.take(self.header.num_readers as int),
        )
    }

    /// How far the slowest participant lags behind the producer.
    pub open spec fn lag(self) -> u64 {
        distance(self.header.write_idx, self.slowest_cursor())
    }

    /// Whether the producer may push: the slowest participant is not ahead of
    /// the producer, and lags it by less than a capacity.
    pub open spec fn has_room(self) -> bool {
        &&& self.slowest_cursor() <= self.header.write_idx
        &&& self.lag() < self.capacity()
    }

    /// The state after `value` was published.
    pub open spec fn pushed(self, value: T) -> Self {
        RingState {
            header: self.header.with_write_idx(
                succ(self.header.write_idx),
            ).with_total_written(succ(self.header.total_written)),
            slots: self.slots.update(self.slot(self.header.write_idx as int), value),
        }
    }

    /// The state after reader `r`'s cursor moved to `v`.
    pub open spec fn with_cursor(self, r: int, v: u64) -> Self {
        RingState { header: self.header.with_read_idx(r, v), ..self }
    }

    /// The state after reader `r` consumed one message.
    pub open spec fn popped(self, r: int) -> Self {
        self.with_cursor(r, succ(self.cursor(r)))
    }
}

/// Two stream indices less than a capacity apart land in different slots.
pub proof fn lemma_distinct_slots(a: int, b: int, capacity: int)
    requires
        0 <= a < b < a + capacity,
    ensures
        a % capacity != b % capacity,
{
    if a % capacity == b % capacity {
        lemma_fundamental_div_mod(a, capacity);
        lemma_fundamental_div_mod(b, capacity);
        let q = b / capacity - a / capacity;
        assert(b - a == capacity * q) by (nonlinear_arith)
            requires
                a == capacity * (a / capacity) + a % capacity,
                b == capacity * (b / capacity) + b % capacity,
                a % capacity == b % capacity,
                q == b / capacity - a / capacity,
        ;
        assert(false) by (nonlinear_arith)
            requires
                0 < b - a < capacity,
                b - a == capacity * q,
        ;
    }
}

/// Backpressure looks at the right quantity: there is room exactly when every
/// participant's queue holds less than a capacity, the lag is the length of
/// the longest queue, and no queue is ever longer than the capacity.
pub proof fn law_lag_is_longest_queue<T>(s: RingState<T>)
    requires
        s.consistent(),
    ensures
        forall|r: int| s.participant(r) ==> (#[trigger] s.pending(r)).len() <= s.lag(),
        exists|r: int| s.participant(r) && (#[trigger] s.pending(r)).len() == s.lag(),
        s.lag() <= s.capacity(),
        s.has_room() <==> (forall|r: int|
            s.participant(r) ==> (#[trigger] s.pending(r)).len() < s.capacity()),
{
    let n = s.header.num_readers as int;
    let cursors = s.header.read_indices.take(n);
    crate::header::lemma_slowest(cursors);
    let j = choose|j: int|
        0 <= j < cursors.len() && #[trigger] cursors[j] == crate::header::slowest(cursors);
    assert(cursors[j] == s.cursor(j));
    assert(s.participant(j));
    assert(s.pending(j).len() == s.lag());
    assert forall|r: int| s.participant(r) implies (#[trigger] s.pending(r)).len() <= s.lag() by {
        assert(cursors[r] == s.cursor(r));
    }
}

/// A push into a ring with room keeps the protocol invariant and appends the
/// message to every participant's queue: nothing a participant has yet to
/// read is overwritten.
pub proof fn law_push<T>(s: RingState<T>, value: T)
    requires
        s.consistent(),
        s.has_room(),
        s.header.write_idx < u64::MAX,
    ensures
        s.pushed(value).consistent(),
        forall|r: int|
            s.participant(r) ==> #[trigger] s.pushed(value).pending(r) == s.pending(r).push(value),
{
    let t = s.pushed(value);
    let w = s.header.write_idx as int;
    law_lag_is_longest_queue(s);
    lemma_mod_bound(w, s.capacity());
    assert forall|r: int| s.participant(r) implies #[trigger] t.cursor(r) <= t.header.write_idx
        && t.header.write_idx - t.cursor(r) <= t.capacity() by {
        assert(s.pending(r).len() < s.capacity());
        assert(s.cursor(r) <= s.header.write_idx);
    }
    assert forall|r: int| s.participant(r) implies #[trigger] t.pending(r) == s.pending(r).push(
        value,
    ) by {
        assert(s.pending(r).len() < s.capacity());
        let c = s.cursor(r) as int;
        assert forall|j: int| c <= j < w implies #[trigger] t.message(j) == s.message(j) by {
            lemma_distinct_slots(j, w, s.capacity());
            lemma_mod_bound(j, s.capacity());
        }
        assert(t.pending(r) =~= s.pending(r).push(value));
    }
}

/// A pop hands out the front of the reader's queue, removes just that, and
/// leaves every other reader's queue alone.
pub proof fn law_pop<T>(s: RingState<T>, r: int)
    requires
        s.consistent(),
        s.participant(r),
        s.cursor(r) != s.header.write_idx,
    ensures
        s.popped(r).consistent(),
        s.pending(r).len() > 0,
        s.message(s.cursor(r) as int) == s.pending(r)[0],
        s.popped(r).pending(r) == s.pending(r).drop_first(),
        forall|q: int|
            s.participant(q) && q != r ==> #[trigger] s.popped(r).pending(q) == s.pending(q),
{
    let t = s.popped(r);
    assert(s.cursor(r) <= s.header.write_idx);
    assert forall|q: int| s.participant(q) implies #[trigger] t.cursor(q) <= t.header.write_idx
        && t.header.write_idx - t.cursor(q) <= t.capacity() by {
        assert(s.cursor(q) <= s.header.write_idx);
    }
    assert(t.pending(r) =~= s.pending(r).drop_first());
    assert forall|q: int| s.participant(q) && q != r implies #[trigger] t.pending(q) == s.pending(
        q,
    ) by {
        assert(t.pending(q) =~= s.pending(q));
    }
}

/// The producer stalls until the slow readers advance, and recovers exactly
/// then: when reader `r` consumes a message of a full ring, there is room
/// again if and only if no other participant's queue is full.
pub proof fn law_recovers_when_slowest_advances<T>(s: RingState<T>, r: int)
    requires
        s.consistent(),
        !s.has_room(),
        s.participant(r),
        s.cursor(r) != s.header.write_idx,
    ensures
        s.popped(r).has_room() <==> (forall|q: int|
            s.participant(q) && q != r ==> (#[trigger] s.pending(q)).len() < s.capacity()),
{
    let t = s.popped(r);
    law_pop(s, r);
    law_lag_is_longest_queue(s);
    law_lag_is_longest_queue(t);
    assert(s.pending(r).len() <= s.lag());
    assert(t.pending(r).len() < s.capacity());
    if t.has_room() {
        assert forall|q: int| s.participant(q) && q != r implies (#[trigger] s.pending(q)).len()
            < s.capacity() by {
            assert(t.participant(q));
            assert(t.pending(q) == s.pending(q));
        }
    }
    if forall|q: int|
        s.participant(q) && q != r ==> (#[trigger] s.pending(q)).len() < s.capacity() {
        assert forall|q: int| t.participant(q) implies (#[trigger] t.pending(q)).len()
            < t.capacity() by {
            if q != r {
                assert(t.pending(q) == s.pending(q));
                assert(s.participant(q));
            }
        }
    }
}

/// A cursor that does not participate never gates the producer.
pub proof fn law_only_participants_gate<T>(s: RingState<T>, i: int, v: u64)
    requires
        s.shaped(),
        s.header.num_readers <= i < MAX_READERS,
    ensures
        s.with_cursor(i, v).lag() == s.lag(),
        s.with_cursor(i, v).has_room() == s.has_room(),
{
    let n = s.header.num_readers as int;
    assert(s.with_cursor(i, v).header.read_indices.take(n) =~= s.header.read_indices.take(n));
}

/// Poisoned cursors degrade to a stall: when every participant's cursor claims
/// messages that were never published, or there is no participant at all, the
/// producer does not push.
pub proof fn law_poisoned_cursors_stall<T>(s: RingState<T>)
    requires
        s.shaped(),
        s.all_have_cursors(),
        s.header.write_idx < u64::MAX,
        forall|r: int| s.participant(r) ==> #[trigger] s.cursor(r) > s.header.write_idx,
    ensures
        !s.has_room(),
{
    let cursors = s.header.read_indices.take(s.header.num_readers as int);
    crate::header::lemma_slowest(cursors);
    if cursors.len() > 0 {
        let j = choose|j: int|
            0 <= j < cursors.len() && #[trigger] cursors[j] == crate::header::slowest(cursors);
        assert(s.participant(j));
        assert(cursors[j] == s.cursor(j));
    }
}

/// The diagnostic counter counts the pushes: it starts equal to the write
/// index, and no operation drives them apart.
pub proof fn law_total_written_counts_pushes<T>(s: RingState<T>, value: T, r: int, v: u64)
    requires
        s.header.total_written == s.header.write_idx,
    ensures
        s.pushed(value).header.total_written == s.pushed(value).header.write_idx,
        s.header.write_idx < u64::MAX ==> s.pushed(value).header.total_written
            > s.header.total_written,
        s.with_cursor(r, v).header.total_written == s.with_cursor(r, v).header.write_idx,
{
}

/// Whether an opener accepts a file of `file_len` bytes that begins with
/// `header`: the header is valid and the slots it implies fit.
pub open spec fn opens(header: crate::header::HeaderState, file_len: int, slot_size: int) -> bool {
    &&& header.valid()
    &&& layout_len(header.capacity_mask + 1, slot_size) <= file_len
}

/// A created ring opens, unchanged, with the capacity it was created with,
/// and starts with every queue empty.
pub proof fn law_created_ring_opens<T>(
    capacity: u64,
    num_readers: nat,
    slot_size: nat,
    slots: Seq<T>,
)
    requires
        is_pow2(capacity as int),
        1 <= num_readers <= MAX_READERS,
        slots.len() == capacity,
    ensures
        ({
            let header = crate::header::HeaderState::fresh((capacity - 1) as u64, num_readers);
            let s = RingState { header, slots };
            &&& opens(header, layout_len(capacity as int, slot_size as int), slot_size as int)
            &&& s.capacity() == capacity
            &&& s.consistent()
            &&& forall|r: int| s.participant(r) ==> (#[trigger] s.pending(r)).len() == 0
        }),
{
    crate::pow2::lemma_mask_is_mod(0, capacity);
    let header = crate::header::HeaderState::fresh((capacity - 1) as u64, num_readers);
    let s = RingState { header, slots };
    assert(header.capacity_mask + 1 == capacity);
    assert forall|r: int| s.participant(r) implies #[trigger] s.cursor(r) == 0 by {}
}

/// What a creator has to write: the length of the new file and its header.
pub struct CreatePlan {
    /// Bytes the file must have.
    pub file_len: u64,
    /// The header that goes at its start.
    pub header: RingHeader,
}

/// Bytes of a ring file, or `None` where a `u64` cannot count them.
pub fn ring_len(capacity: u64, slot_size: u64) -> (r: Option<u64>)
    ensures
        match r {
            Some(len) => len == layout_len(capacity as int, slot_size as int),
            None => layout_len(capacity as int, slot_size as int) > u64::MAX,
        },
{
    match capacity.checked_mul(slot_size) {
        Some(data) => data.checked_add(HEADER_SIZE as u64),
        None => None,
    }
}

/// No file has room for a ring of `capacity` slots of type `T`: a `u64` cannot
/// count its bytes.
pub open spec fn too_large<T>(capacity: int) -> bool {
    layout_len(capacity, vstd::layout::size_of::<T>() as int) > u64::MAX
}

/// The check that fails first when a ring is created, in the order capacity,
/// path, size, is the one that `err` reports.
pub open spec fn refused_creation<T>(exists: bool, capacity: usize, err: ShmRingError) -> bool {
    if !is_pow2(capacity as int) {
        &&& err matches ShmRingError::InvalidCapacity { got }
        &&& got == capacity
    } else if exists {
        err is AlreadyExists
    } else {
        &&& too_large::<T>(capacity as int)
        &&& err matches ShmRingError::FileTooShort { expected, got }
        &&& expected == u64::MAX
        &&& got == 0
    }
}

/// Decides whether a ring of `capacity` slots of type `T` may be created at a
/// path, and what to write there.
///
/// Creation is exclusive (`exists` is what the file system said of the path),
/// and only a non-zero power of two is a capacity. A ring that would take more
/// bytes than a `u64` counts is reported, as on open, as needing `u64::MAX` of
/// them; there is no file yet, so none are found.
pub fn plan_create<T>(exists: bool, capacity: usize, num_readers: usize) -> (r: Result<
    CreatePlan,
    ShmRingError,
>)
    requires
        is_pow2(capacity as int) ==> 1 <= num_readers <= MAX_READERS,
        is_pow2(capacity as int) ==> vstd::layout::align_of::<T>() <= 64,
    ensures
        match r {
            Ok(plan) => {
                &&& is_pow2(capacity as int)
                &&& !exists
                &&& !too_large::<T>(capacity as int)
                &&& plan.file_len == layout_len(
                    capacity as int,
                    vstd::layout::size_of::<T>() as int,
                )
                &&& plan.header@ == crate::header::HeaderState::fresh(
                    (capacity - 1) as u64,
                    num_readers as nat,
                )
            },
            Err(err) => refused_creation::<T>(exists, capacity, err),
        },
        is_pow2(capacity as int) && !exists && HEADER_SIZE + capacity
            * vstd::layout::size_of::<T>() <= u64::MAX ==> r is Ok,
{
    if !is_power_of_two(capacity as u64) {
        return Err(ShmRingError::InvalidCapacity { got: capacity });
    }
    if exists {
        return Err(ShmRingError::AlreadyExists);
    }
    reveal(is_pow2);
    match ring_len(capacity as u64, std::mem::size_of::<T>() as u64) {
        Some(file_len) => Ok(
            CreatePlan { file_len, header: RingHeader::new((capacity - 1) as u64, num_readers) },
        ),
        None => Err(ShmRingError::FileTooShort { expected: u64::MAX, got: 0 }),
    }
}

/// The floor below which a file cannot hold a header at all. An opener checks
/// it before it maps the file.
pub fn check_header_floor(file_len: u64) -> (r: Result<(), ShmRingError>)
    ensures
        match r {
            Ok(()) => HEADER_SIZE <= file_len,
            Err(ShmRingError::FileTooShort { expected, got }) => {
                &&& file_len < HEADER_SIZE
                &&& expected == HEADER_SIZE
                &&& got == file_len
            },
            Err(_) => false,
        },
{
    if file_len < HEADER_SIZE as u64 {
        return Err(ShmRingError::FileTooShort { expected: HEADER_SIZE as u64, got: file_len });
    }
    Ok(())
}

/// Decides whether a file of `file_len` bytes that begins with `header` is a
/// ring of slots of type `T`, and gives its capacity.
///
/// The header is judged first, then the length. A mask that implies more
/// bytes than a `u64` counts is reported as needing `u64::MAX` of them.
pub fn plan_open<T>(file_len: u64, header: &RingHeader) -> (r: Result<u64, ShmRingError>)
    requires
        vstd::layout::align_of::<T>() <= 64,
    ensures
        match r {
            Ok(capacity) => {
                &&& opens(header@, file_len as int, vstd::layout::size_of::<T>() as int)
                &&& capacity == header@.capacity_mask + 1
            },
            Err(err) => {
                let needed = layout_len(
                    header@.capacity_mask + 1,
                    vstd::layout::size_of::<T>() as int,
                );
                if !header@.valid() {
                    header@.rejected_with(err)
                } else {
                    &&& file_len < needed
                    &&& err matches ShmRingError::FileTooShort { expected, got }
                    &&& expected == if needed <= u64::MAX {
                        needed
                    } else {
                        u64::MAX as int
                    }
                    &&& got == file_len
                }
            },
        },
{
    match header.validate() {
        Ok(()) => {},
        Err(err) => {
            return Err(err);
        },
    }
    let capacity = header.capacity_mask() + 1;
    match ring_len(capacity, std::mem::size_of::<T>() as u64) {
        Some(expected) => {
            if file_len < expected {
                return Err(ShmRingError::FileTooShort { expected, got: file_len });
            }
            Ok(capacity)
        },
        None => Err(ShmRingError::FileTooShort { expected: u64::MAX, got: file_len }),
    }
}

/// The highest reader that an [`ShmRingError::InvalidReaderId`] names: the last
/// of `num_readers` participants, or reader 0 where a damaged header counts
/// none.
pub open spec fn highest_reader(num_readers: int) -> int {
    if num_readers > 0 {
        num_readers - 1
    } else {
        0
    }
}

/// Whether `reader_id` names one of `num_readers` participants. Of none, no
/// reader is one.
pub fn check_reader(num_readers: usize, reader_id: usize) -> (r: Result<(), ShmRingError>)
    ensures
        match r {
            Ok(()) => reader_id < num_readers,
            Err(ShmRingError::InvalidReaderId { id, max }) => {
                &&& reader_id >= num_readers
                &&& id == reader_id
                &&& max == highest_reader(num_readers as int)
            },
            Err(_) => false,
        },
{
    if reader_id >= num_readers {
        return Err(
            ShmRingError::InvalidReaderId { id: reader_id, max: num_readers.saturating_sub(1) },
        );
    }
    Ok(())
}

/// The slot that stream index `idx` lands in, without a division.
pub fn slot_index(idx: u64, capacity: usize) -> (r: usize)
    requires
        is_pow2(capacity as int),
    ensures
        r == idx as int % capacity as int,
        r < capacity,
{
    proof {
        crate::pow2::lemma_mask_is_mod(idx, capacity as u64);
        assert(idx % (capacity as u64) < capacity);
    }
    (idx & (capacity as u64 - 1)) as usize
}

/// Messages between a reader's cursor and the write index of `header`.
pub fn available(header: &RingHeader, reader_id: usize) -> (r: Result<u64, ShmRingError>)
    requires
        reader_id < header@.num_readers ==> reader_id < MAX_READERS,
    ensures
        match r {
            Ok(n) => {
                &&& reader_id < header@.num_readers
                &&& n == distance(header@.write_idx, header@.read_indices[reader_id as int])
            },
            Err(ShmRingError::InvalidReaderId { id, max }) => {
                &&& reader_id >= header@.num_readers
                &&& id == reader_id
                &&& max == highest_reader(header@.num_readers as int)
            },
            Err(_) => false,
        },
{
    match check_reader(header.num_readers(), reader_id) {
        Ok(()) => Ok(header.write_idx().wrapping_sub(header.read_idx(reader_id))),
        Err(err) => Err(err),
    }
}

/// The slot of a reader's next message, or `None` when it has caught up with
/// the write index of `header`.
pub fn next_slot(header: &RingHeader, capacity: usize, reader_id: usize) -> (r: Result<
    Option<usize>,
    ShmRingError,
>)
    requires
        reader_id < header@.num_readers ==> reader_id < MAX_READERS,
        is_pow2(capacity as int),
    ensures
        match r {
            Ok(Some(slot)) => {
                &&& reader_id < header@.num_readers
                &&& header@.read_indices[reader_id as int] != header@.write_idx
                &&& slot == header@.read_indices[reader_id as int] as int % capacity as int
                &&& slot < capacity
            },
            Ok(None) => {
                &&& reader_id < header@.num_readers
                &&& header@.read_indices[reader_id as int] == header@.write_idx
            },
            Err(ShmRingError::InvalidReaderId { id, max }) => {
                &&& reader_id >= header@.num_readers
                &&& id == reader_id
                &&& max == highest_reader(header@.num_readers as int)
            },
            Err(_) => false,
        },
{
    match check_reader(header.num_readers(), reader_id) {
        Ok(()) => {},
        Err(err) => {
            return Err(err);
        },
    }
    let w = header.write_idx();
    let r = header.read_idx(reader_id);
    if r == w {
        return Ok(None);
    }
    Ok(Some(slot_index(r, capacity)))
}

/// How far the slowest participant lags behind the write index of `header`.
pub fn slowest_lag_of(header: &RingHeader) -> (r: u64)
    requires
        header@.num_readers <= MAX_READERS,
    ensures
        r == distance(
            header@.write_idx,
            crate::header::slowest(header@.read_indices.take(header@.num_readers as int)),
        ),
{
    header.write_idx().wrapping_sub(header.slowest_read_idx(header.num_readers()))
}

/// First byte of slot number `slot`.
pub open spec fn slot_start(slot: int, slot_size: int) -> int {
    HEADER_SIZE + slot * slot_size
}

/// The slots tile the file behind the header: every slot lies past the header
/// and inside the file, and two different slots share no byte.
pub proof fn law_slots_tile_the_file(a: int, b: int, capacity: int, slot_size: int)
    requires
        0 <= a < capacity,
        0 <= b < capacity,
        0 <= slot_size,
    ensures
        HEADER_SIZE <= slot_start(a, slot_size),
        slot_start(a, slot_size) + slot_size <= layout_len(capacity, slot_size),
        a < b ==> slot_start(a, slot_size) + slot_size <= slot_start(b, slot_size),
{
    assert(0 <= a * slot_size) by (nonlinear_arith)
        requires
            0 <= a,
            0 <= slot_size,
    ;
    assert(a * slot_size + slot_size <= capacity * slot_size) by (nonlinear_arith)
        requires
            0 <= a < capacity,
            0 <= slot_size,
    ;
    if a < b {
        assert(a * slot_size + slot_size <= b * slot_size) by (nonlinear_arith)
            requires
                a < b,
                0 <= slot_size,
        ;
    }
}

/// A power of two up to 64 divides the header size.
proof fn lemma_header_aligned(align: int)
    requires
        is_pow2(align),
        align <= 64,
    ensures
        HEADER_SIZE as int % align == 0,
{
    reveal_with_fuel(is_pow2, 8);
    assert(align == 1 || align == 2 || align == 4 || align == 8 || align == 16 || align == 32
        || align == 64);
    assert(256int % 1 == 0 && 256int % 2 == 0 && 256int % 4 == 0 && 256int % 8 == 0 && 256int % 16
        == 0 && 256int % 32 == 0 && 256int % 64 == 0);
}

/// Byte offset of the slot that stream index `idx` lands in: in bounds of the
/// file, past the header, and aligned for `T` on a page-aligned mapping.
pub fn slot_offset<T>(idx: u64, capacity: usize) -> (r: usize)
    requires
        is_pow2(capacity as int),
        vstd::layout::align_of::<T>() <= 64,
        layout_len(capacity as int, vstd::layout::size_of::<T>() as int) <= usize::MAX,
    ensures
        r == slot_start(idx as int % capacity as int, vstd::layout::size_of::<T>() as int),
        HEADER_SIZE <= r,
        r + vstd::layout::size_of::<T>() <= layout_len(
            capacity as int,
            vstd::layout::size_of::<T>() as int,
        ),
        r as int % vstd::layout::align_of::<T>() as int == 0,
{
    vstd::layout::layout_for_type_is_valid::<T>();
    let slot = slot_index(idx, capacity);
    let size = std::mem::size_of::<T>();
    proof {
        let align = vstd::layout::align_of::<T>() as int;
        law_slots_tile_the_file(slot as int, slot as int, capacity as int, size as int);
        lemma_header_aligned(align);
        assert((slot * size) as int % align == 0) by {
            lemma_fundamental_div_mod(size as int, align);
            lemma_mod_multiples_basic(slot * (size as int / align), align);
            assert(slot * size == slot * (size as int / align) * align) by (nonlinear_arith)
                requires
                    size == align * (size as int / align),
            ;
        }
        lemma_mod_adds(HEADER_SIZE as int, (slot * size) as int, align);
    }
    HEADER_SIZE + slot * size
}

impl<T> RingMemory<T> {
    /// Bytes of the file that holds this memory.
    pub fn file_len(&self) -> (r: u64)
        requires
            layout_len(self.slots@.len() as int, vstd::layout::size_of::<T>() as int) <= u64::MAX,
        ensures
            r == layout_len(self.slots@.len() as int, vstd::layout::size_of::<T>() as int),
    {
        let size = std::mem::size_of::<T>() as u64;
        let count = self.slots.len() as u64;
        assert(0 <= count * size) by (nonlinear_arith)
            requires
                0 <= count,
                0 <= size,
        ;
        HEADER_SIZE as u64 + count * size
    }
}

/// One party's handle on a ring of `T` messages.
///
/// The claim pipeline is the handle's own: two handles on one memory keep
/// separate pipelines and meet only in the shared cursors.
pub struct SpmcRingBuffer<T> {
    capacity: usize,
    path: String,
    claim_base: [u64; MAX_READERS],
    loan_depth: [u64; MAX_READERS],
    _marker: PhantomData<T>,
}

/// The mathematical content of a [`SpmcRingBuffer`].
#[verifier::ext_equal]
pub struct HandleState {
    /// Number of slots, as read on open.
    pub capacity: int,
    /// Path of the backing file.
    pub path: Seq<char>,
    /// Per reader, the head of this handle's claim pipeline: the next claim is
    /// for this stream index, or for the cursor if that is further. An abort
    /// rewinds it.
    pub claim_base: Seq<u64>,
    /// Per reader, the number of open loans of this handle.
    pub loan_depth: Seq<u64>,
}

impl HandleState {
    /// A handle without claims.
    pub open spec fn fresh(capacity: int, path: Seq<char>) -> Self {
        HandleState {
            capacity,
            path,
            claim_base: Seq::new(MAX_READERS as nat, |i: int| 0u64),
            loan_depth: Seq::new(MAX_READERS as nat, |i: int| 0u64),
        }
    }

    /// The handle read its capacity from this memory, the memory has the
    /// structure that every operation relies on, and the handle keeps one
    /// pipeline per cursor.
    pub open spec fn attached<T>(self, mem: RingState<T>) -> bool {
        &&& mem.shaped()
        &&& self.capacity == mem.capacity()
        &&& self.claim_base.len() == MAX_READERS
        &&& self.loan_depth.len() == MAX_READERS
    }

    /// The handle with reader `r`'s pipeline head at `v`.
    pub open spec fn with_claim_base(self, r: int, v: u64) -> Self {
        HandleState { claim_base: self.claim_base.update(r, v), ..self }
    }

    /// The handle with `v` open loans for reader `r`.
    pub open spec fn with_loan_depth(self, r: int, v: u64) -> Self {
        HandleState { loan_depth: self.loan_depth.update(r, v), ..self }
    }
}

impl<T> View for SpmcRingBuffer<T> {
    type V = HandleState;

    closed spec fn view(&self) -> HandleState {
        HandleState {
            capacity: self.capacity as int,
            path: self.path@,
            claim_base: self.claim_base@,
            loan_depth: self.loan_depth@,
        }
    }
}

/// The outcome of a consumer call for a reader that does not participate.
pub open spec fn refused_reader<T>(mem: RingState<T>, reader_id: usize, err: ShmRingError) -> bool {
    &&& !mem.participant(reader_id as int)
    &&& err matches ShmRingError::InvalidReaderId { id, max }
    &&& id == reader_id
    &&& max == highest_reader(mem.header.num_readers as int)
}

impl<T: Copy> SpmcRingBuffer<T> {
    /// A handle without claims.
    pub(crate) fn attach(path: String, capacity: usize) -> (r: Self)
        ensures
            r@ == HandleState::fresh(capacity as int, path@),
    {
        let r = SpmcRingBuffer {
            capacity,
            path,
            claim_base: [0; MAX_READERS],
            loan_depth: [0; MAX_READERS],
            _marker: PhantomData,
        };
        assert(r@ =~= HandleState::fresh(capacity as int, path@));
        r
    }

    /// Creates a ring of `capacity` slots with all [`MAX_READERS`] cursors
    /// participating; see [`Self::create_new_with_readers`].
    pub fn create_new(path: String, exists: bool, capacity: usize, blank: T) -> (r: Result<
        (Self, RingMemory<T>),
        ShmRingError,
    >)
        requires
            is_pow2(capacity as int) ==> vstd::layout::align_of::<T>() <= 64,
        ensures
            match r {
                Ok((ring, mem)) => {
                    &&& is_pow2(capacity as int)
                    &&& !exists
                    &&& !too_large::<T>(capacity as int)
                    &&& ring@ == HandleState::fresh(capacity as int, path@)
                    &&& mem@.header == crate::header::HeaderState::fresh(
                        (capacity - 1) as u64,
                        MAX_READERS as nat,
                    )
                    &&& mem@.slots == Seq::new(capacity as nat, |i: int| blank)
                    &&& ring@.attached(mem@)
                    &&& mem@.consistent()
                },
                Err(err) => refused_creation::<T>(exists, capacity, err),
            },
            is_pow2(capacity as int) && !exists && HEADER_SIZE + capacity
                * vstd::layout::size_of::<T>() <= u64::MAX ==> r is Ok,
    {
        Self::create_new_with_readers(path, exists, capacity, MAX_READERS, blank)
    }

    /// Creates a ring of `capacity` slots in which only the first
    /// `num_readers` cursors participate. Cursors beyond them never gate the
    /// producer, and consumer calls for them are refused.
    ///
    /// `exists` is what the file system said of `path`; `blank` is the message
    /// that a slot of a fresh file decodes to.
    pub fn create_new_with_readers(
        path: String,
        exists: bool,
        capacity: usize,
        num_readers: usize,
        blank: T,
    ) -> (r: Result<(Self, RingMemory<T>), ShmRingError>)
        requires
            is_pow2(capacity as int) ==> 1 <= num_readers <= MAX_READERS,
            is_pow2(capacity as int) ==> vstd::layout::align_of::<T>() <= 64,
        ensures
            match r {
                Ok((ring, mem)) => {
                    &&& is_pow2(capacity as int)
                    &&& !exists
                    &&& !too_large::<T>(capacity as int)
                    &&& ring@ == HandleState::fresh(capacity as int, path@)
                    &&& mem@.header == crate::header::HeaderState::fresh(
                        (capacity - 1) as u64,
                        num_readers as nat,
                    )
                    &&& mem@.slots == Seq::new(capacity as nat, |i: int| blank)
                    &&& ring@.attached(mem@)
                    &&& mem@.consistent()
                },
                Err(err) => refused_creation::<T>(exists, capacity, err),
            },
            is_pow2(capacity as int) && !exists && HEADER_SIZE + capacity
                * vstd::layout::size_of::<T>() <= u64::MAX ==> r is Ok,
    {
        let plan = match plan_create::<T>(exists, capacity, num_readers) {
            Ok(plan) => plan,
            Err(err) => {
                return Err(err);
            },
        };
        let mut slots: Vec<T> = Vec::new();
        let mut i: usize = 0;
        while i < capacity
            invariant
                i <= capacity,
                slots@ == Seq::new(i as nat, |k: int| blank),
            decreases capacity - i,
        {
            slots.push(blank);
            i += 1;
            assert(slots@ =~= Seq::new(i as nat, |k: int| blank));
        }
        let mem = RingMemory { header: plan.header, slots };
        proof {
            law_created_ring_opens(capacity as u64, num_readers as nat, 0, mem@.slots);
            assert(mem@ =~= RingState { header: mem@.header, slots: mem@.slots });
        }
        Ok((Self::attach(path, capacity), mem))
    }

    /// Attaches a handle to an existing ring, validating it first.
    pub fn open_existing(path: String, mem: &RingMemory<T>) -> (r: Result<Self, ShmRingError>)
        requires
            vstd::layout::align_of::<T>() <= 64,
            layout_len(mem@.slots.len() as int, vstd::layout::size_of::<T>() as int) <= u64::MAX,
            vstd::layout::size_of::<T>() == 0 && mem@.header.valid()
                ==> mem@.header.capacity_mask < usize::MAX,
        ensures
            ({
                let size = vstd::layout::size_of::<T>() as int;
                let file_len = layout_len(mem@.slots.len() as int, size);
                let needed = layout_len(mem@.capacity(), size);
                match r {
                    Ok(ring) => {
                        &&& opens(mem@.header, file_len, size)
                        &&& ring@ == HandleState::fresh(mem@.capacity(), path@)
                        &&& mem@.capacity() <= mem@.slots.len() ==> ring@.attached(mem@)
                        &&& size > 0 ==> mem@.capacity() <= mem@.slots.len()
                    },
                    Err(err) => if !mem@.header.valid() {
                        mem@.header.rejected_with(err)
                    } else {
                        &&& file_len < needed
                        &&& err matches ShmRingError::FileTooShort { expected, got }
                        &&& expected == if needed <= u64::MAX {
                            needed
                        } else {
                            u64::MAX as int
                        }
                        &&& got == file_len
                    },
                }
            }),
    {
        match plan_open::<T>(mem.file_len(), &mem.header) {
            Ok(capacity) => {
                proof {
                    let size = vstd::layout::size_of::<T>() as int;
                    let count = mem@.slots.len() as int;
                    assert(mem.slots.len() == count);
                    if size > 0 {
                        assert(capacity <= count) by (nonlinear_arith)
                            requires
                                size > 0,
                                capacity * size <= count * size,
                        ;
                    }
                }
                Ok(Self::attach(path, capacity as usize))
            },
            Err(err) => Err(err),
        }
    }

    /// Publishes one message, or returns `false` without writing anything
    /// when the slowest participant lags by the full capacity. A slowest
    /// cursor ahead of the producer, which only damage can bring about, stalls
    /// it as well.
    pub fn try_push(&mut self, mem: &mut RingMemory<T>, value: &T) -> (pushed: bool)
        requires
            old(self)@.attached(old(mem)@),
            old(mem)@.all_have_cursors(),
        ensures
            final(self)@ == old(self)@,
            pushed == old(mem)@.has_room(),
            final(mem)@ == if pushed {
                old(mem)@.pushed(*value)
            } else {
                old(mem)@
            },
            old(mem)@.consistent() && old(mem)@.header.write_idx < u64::MAX ==> {
                &&& final(mem)@.consistent()
                &&& pushed ==> forall|r: int|
                    old(mem)@.participant(r) ==> #[trigger] final(mem)@.pending(r) == old(
                        mem,
                    )@.pending(r).push(*value)
            },
    {
        let w = mem.header.write_idx();
        let num_readers = mem.header.num_readers();
        let min_read = mem.header.slowest_read_idx(num_readers);
        if min_read > w || w - min_read >= self.capacity as u64 {
            return false;
        }
        let slot = slot_index(w, self.capacity);
        mem.slots[slot] = *value;
        mem.header.set_write_idx(w.wrapping_add(1));
        mem.header.bump_total_written();
        proof {
            assert(mem@ =~= old(mem)@.pushed(*value));
            if old(mem)@.consistent() && old(mem)@.header.write_idx < u64::MAX {
                law_push(old(mem)@, *value);
            }
        }
        true
    }

    /// Consumes the next message for reader `reader_id`; `Ok(None)` when the
    /// reader has caught up. Refused while the reader has an open loan on
    /// this handle: the pop would un-pin the loaned slot.
    pub fn try_pop(&mut self, mem: &mut RingMemory<T>, reader_id: usize) -> (r: Result<
        Option<T>,
        ShmRingError,
    >)
        requires
            old(self)@.attached(old(mem)@),
            old(mem)@.has_cursor(reader_id as int),
        ensures
            final(self)@ == old(self)@,
            ({
                let s = old(mem)@;
                let id = reader_id as int;
                match r {
                    Ok(Some(v)) => {
                        &&& s.participant(id)
                        &&& old(self)@.loan_depth[id] == 0
                        &&& s.cursor(id) != s.header.write_idx
                        &&& v == s.message(s.cursor(id) as int)
                        &&& final(mem)@ == s.popped(id)
                        &&& s.consistent() ==> {
                            &&& final(mem)@.consistent()
                            &&& v == s.pending(id)[0]
                            &&& final(mem)@.pending(id) == s.pending(id).drop_first()
                            &&& forall|q: int|
                                s.participant(q) && q != id ==> #[trigger] final(mem)@.pending(q)
                                    == s.pending(q)
                        }
                    },
                    Ok(None) => {
                        &&& s.participant(id)
                        &&& old(self)@.loan_depth[id] == 0
                        &&& s.cursor(id) == s.header.write_idx
                        &&& final(mem)@ == s
                    },
                    Err(ShmRingError::LoanOutstanding { reader_id: blocked }) => {
                        &&& s.participant(id)
                        &&& old(self)@.loan_depth[id] != 0
                        &&& blocked == reader_id
                        &&& final(mem)@ == s
                    },
                    Err(err) => refused_reader(s, reader_id, err) && final(mem)@ == s,
                }
            }),
            reader_id < old(mem).header.num_readers && old(self)@.loan_depth[reader_id as int] == 0
                ==> r is Ok,
            r matches Err(ShmRingError::InvalidReaderId { .. }) ==> reader_id
                >= old(mem).header.num_readers,
    {
        match check_reader(mem.header.num_readers(), reader_id) {
            Ok(()) => {},
            Err(err) => {
                return Err(err);
            },
        }
        if self.loan_depth[reader_id] != 0 {
            return Err(ShmRingError::LoanOutstanding { reader_id });
        }
        let w = mem.header.write_idx();
        let r = mem.header.read_idx(reader_id);
        if r == w {
            return Ok(None);
        }
        let value = mem.slots[slot_index(r, self.capacity)];
        mem.header.set_read_idx(reader_id, r.wrapping_add(1));
        proof {
            assert(mem@ =~= old(mem)@.popped(reader_id as int));
            if old(mem)@.consistent() {
                law_pop(old(mem)@, reader_id as int);
            }
        }
        Ok(Some(value))
    }

    /// The next message of reader `reader_id`, read in place and not
    /// consumed.
    pub fn peek<'a>(&self, mem: &'a RingMemory<T>, reader_id: usize) -> (r: Result<
        Option<&'a T>,
        ShmRingError,
    >)
        requires
            self@.attached(mem@),
            mem@.has_cursor(reader_id as int),
        ensures
            ({
                let id = reader_id as int;
                match r {
                    Ok(Some(v)) => {
                        &&& mem@.participant(id)
                        &&& mem@.cursor(id) != mem@.header.write_idx
                        &&& *v == mem@.message(mem@.cursor(id) as int)
                        &&& mem@.consistent() ==> *v == mem@.pending(id)[0]
                    },
                    Ok(None) => mem@.participant(id) && mem@.cursor(id) == mem@.header.write_idx,
                    Err(err) => refused_reader(mem@, reader_id, err),
                }
            }),
            r is Err <==> reader_id >= mem.header.num_readers,
    {
        match next_slot(&mem.header, self.capacity, reader_id) {
            Ok(Some(slot)) => {
                proof {
                    if mem@.consistent() {
                        law_pop(mem@, reader_id as int);
                    }
                }
                Ok(Some(&mem.slots[slot]))
            },
            Ok(None) => Ok(None),
            Err(err) => Err(err),
        }
    }

    /// Number of participating readers.
    pub fn reader_count(&self, mem: &RingMemory<T>) -> (r: usize)
        ensures
            r == mem@.header.num_readers,
    {
        mem.header.num_readers()
    }

    /// Messages available to `reader_id` right now.
    pub fn len(&self, mem: &RingMemory<T>, reader_id: usize) -> (r: Result<u64, ShmRingError>)
        requires
            self@.attached(mem@),
            mem@.has_cursor(reader_id as int),
        ensures
            match r {
                Ok(n) => {
                    &&& mem@.participant(reader_id as int)
                    &&& n == distance(mem@.header.write_idx, mem@.cursor(reader_id as int))
                    &&& mem@.consistent() ==> n == mem@.pending(reader_id as int).len()
                },
                Err(err) => refused_reader(mem@, reader_id, err),
            },
            r is Err <==> reader_id >= mem.header.num_readers,
    {
        proof {
            if mem@.consistent() && mem@.participant(reader_id as int) {
                assert(mem@.cursor(reader_id as int) <= mem@.header.write_idx);
            }
        }
        available(&mem.header, reader_id)
    }

    /// Whether `reader_id` has consumed every published message.
    pub fn is_empty(&self, mem: &RingMemory<T>, reader_id: usize) -> (r: Result<
        bool,
        ShmRingError,
    >)
        requires
            self@.attached(mem@),
            mem@.has_cursor(reader_id as int),
        ensures
            match r {
                Ok(empty) => {
                    &&& mem@.participant(reader_id as int)
                    &&& empty == (mem@.cursor(reader_id as int) == mem@.header.write_idx)
                    &&& mem@.consistent() ==> empty == (mem@.pending(reader_id as int).len() == 0)
                },
                Err(err) => refused_reader(mem@, reader_id, err),
            },
            r is Err <==> reader_id >= mem.header.num_readers,
    {
        match self.len(mem, reader_id) {
            Ok(n) => Ok(n == 0),
            Err(err) => Err(err),
        }
    }

    /// Successful pushes since creation (diagnostic).
    pub fn total_written(&self, mem: &RingMemory<T>) -> (r: u64)
        ensures
            r == mem@.header.total_written,
    {
        mem.header.total_written()
    }

    /// Lag of the slowest participant behind the producer: the quantity that
    /// backpressure is computed against.
    pub fn slowest_lag(&self, mem: &RingMemory<T>) -> (r: u64)
        requires
            self@.attached(mem@),
            mem@.all_have_cursors(),
        ensures
            r == mem@.lag(),
            mem@.consistent() ==> r <= mem@.capacity(),
    {
        proof {
            if mem@.consistent() {
                law_lag_is_longest_queue(mem@);
            }
        }
        slowest_lag_of(&mem.header)
    }

    /// Number of slots (a power of two).
    pub fn capacity(&self) -> (r: usize)
        ensures
            r == self@.capacity,
    {
        self.capacity
    }

    /// Path of the backing file.
    pub fn path(&self) -> (r: &str)
        ensures
            r@ == self@.path,
    {
        self.path.as_str()
    }

    /// Head of this handle's claim pipeline for `reader_id`.
    pub(crate) fn claim_base(&self, reader_id: usize) -> (r: u64)
        requires
            reader_id < MAX_READERS,
        ensures
            r == self@.claim_base[reader_id as int],
    {
        self.claim_base[reader_id]
    }

    /// Moves the pipeline head of `reader_id` to `v`.
    pub(crate) fn set_claim_base(&mut self, reader_id: usize, v: u64)
        requires
            reader_id < MAX_READERS,
        ensures
            final(self)@ == old(self)@.with_claim_base(reader_id as int, v),
    {
        self.claim_base[reader_id] = v;
    }

    /// Open loans of this handle for `reader_id`.
    pub(crate) fn loan_depth(&self, reader_id: usize) -> (r: u64)
        requires
            reader_id < MAX_READERS,
        ensures
            r == self@.loan_depth[reader_id as int],
    {
        self.loan_depth[reader_id]
    }

    /// Sets the number of open loans of `reader_id`.
    pub(crate) fn set_loan_depth(&mut self, reader_id: usize, v: u64)
        requires
            reader_id < MAX_READERS,
        ensures
            final(self)@ == old(self)@.with_loan_depth(reader_id as int, v),
    {
        self.loan_depth[reader_id] = v;
    }
}

} // verus!
