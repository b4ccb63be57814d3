//! Zero-copy loans: a pinned view into a ring slot.
//!
//! [`SpmcRingBuffer::claim`] reserves the next message of a reader and hands
//! out a [`Loan`] that names its slot; the message is read in place. A loan
//! is resolved by [`Loan::commit`] (advance the reader's cursor past it),
//! [`Loan::abort`] (release it unconsumed, rewinding the claim pipeline), or
//! [`Loan::drop`] (commit if it is at the cursor, else just release).
//!
//! A claim does not move the shared cursor. The slot stays pinned because the
//! producer overwrites a slot only once every participant's cursor is past
//! it, and while the loan is open the cursor of its reader stays at or before
//! it: commits are strictly in order, and `try_pop` is refused.
//!
//! There is one exception. An abort rewinds the pipeline, possibly below loans
//! that are still open, and a later claim may hand out their indices once
//! more. Of two open loans at one index, consuming either moves the cursor
//! past both: the other is un-pinned, and must not be read any more.

use vstd::arithmetic::power2::*;
use vstd::prelude::*;
use vstd::slice::slice_subrange;

use crate::error::ShmRingError;
use crate::header::MAX_READERS;
use crate::ring::{check_reader, slot_index, slot_offset, RingMemory, SpmcRingBuffer};

verus! {

/// A reservation of one stream index for one reader.
pub struct Loan {
    reader_id: usize,
    index: u64,
    resolved: bool,
}

/// The mathematical content of a [`Loan`].
pub struct LoanState {
    /// The reader the loan was claimed for.
    pub reader_id: int,
    /// The stream index it views.
    pub index: u64,
    /// Whether it has been committed, aborted, or dropped.
    pub resolved: bool,
}

impl View for Loan {
    type V = LoanState;

    closed spec fn view(&self) -> LoanState {
        LoanState { reader_id: self.reader_id as int, index: self.index, resolved: self.resolved }
    }
}

/// The stream index that the next claim of reader `r` is for: the head of the
/// handle's pipeline, realigned with the shared cursor.
pub open spec fn claim_index<T>(
    h: crate::ring::HandleState,
    s: crate::ring::RingState<T>,
    r: int,
) -> u64 {
    if h.claim_base[r] >= s.cursor(r) {
        h.claim_base[r]
    } else {
        s.cursor(r)
    }
}

/// The handle after reader `r` claimed stream index `idx`.
pub open spec fn claimed(
    h: crate::ring::HandleState,
    r: int,
    idx: u64,
) -> crate::ring::HandleState {
    h.with_claim_base(r, crate::ring::succ(idx)).with_loan_depth(
        r,
        crate::ring::succ(h.loan_depth[r]),
    )
}

/// The handle after one loan of reader `r` was resolved.
pub open spec fn released(h: crate::ring::HandleState, r: int) -> crate::ring::HandleState {
    h.with_loan_depth(r, crate::ring::pred(h.loan_depth[r]))
}

/// The handle after a loan of reader `r` at `idx` was aborted: the pipeline
/// head goes back to `idx` at the latest.
pub open spec fn rewound(
    h: crate::ring::HandleState,
    r: int,
    idx: u64,
) -> crate::ring::HandleState {
    released(
        h.with_claim_base(
            r,
            if idx < h.claim_base[r] {
                idx
            } else {
                h.claim_base[r]
            },
        ),
        r,
    )
}

/// Stream index `idx` is published and reader `r` has not consumed it, so no
/// push may touch its slot.
pub open spec fn pinned<T>(s: crate::ring::RingState<T>, r: int, idx: int) -> bool {
    &&& s.participant(r)
    &&& s.cursor(r) <= idx < s.header.write_idx
}

impl<T: Copy> SpmcRingBuffer<T> {
    /// Reserves the next message of `reader_id` as a loan; `Ok(None)` when
    /// nothing is published at the claim position. The shared cursor does not
    /// move.
    ///
    /// The slot stays pinned while the loan is open, unless the index is
    /// claimed twice. After an abort below an open loan, the claim may be for
    /// the index of that loan: consuming one of the two un-pins the other.
    pub fn claim(&mut self, mem: &RingMemory<T>, reader_id: usize) -> (r: Result<
        Option<Loan>,
        ShmRingError,
    >)
        requires
            old(self)@.attached(mem@),
            mem@.has_cursor(reader_id as int),
        ensures
            ({
                let id = reader_id as int;
                let idx = claim_index(old(self)@, mem@, id);
                match r {
                    Ok(Some(loan)) => {
                        &&& mem@.participant(id)
                        &&& idx < mem@.header.write_idx
                        &&& loan@ == (LoanState { reader_id: id, index: idx, resolved: false })
                        &&& final(self)@ == claimed(old(self)@, id, idx)
                        &&& pinned(mem@, id, idx as int)
                    },
                    Ok(None) => {
                        &&& mem@.participant(id)
                        &&& idx >= mem@.header.write_idx
                        &&& final(self)@ == old(self)@
                    },
                    Err(err) => {
                        &&& crate::ring::refused_reader(mem@, reader_id, err)
                        &&& final(self)@ == old(self)@
                    },
                }
            }),
            r is Err <==> reader_id >= mem.header.num_readers,
    {
        match check_reader(mem.header.num_readers(), reader_id) {
            Ok(()) => {},
            Err(err) => {
                return Err(err);
            },
        }
        let w = mem.header.write_idx();
        let cursor = mem.header.read_idx(reader_id);
        let base = self.claim_base(reader_id);
        let idx = if base >= cursor {
            base
        } else {
            cursor
        };
        if idx >= w {
            return Ok(None);
        }
        self.set_claim_base(reader_id, idx + 1);
        self.set_loan_depth(reader_id, self.loan_depth(reader_id).wrapping_add(1));
        Ok(Some(Loan { reader_id, index: idx, resolved: false }))
    }
}

impl Loan {
    #[verifier::type_invariant]
    spec fn inv(self) -> bool {
        &&& self.reader_id < MAX_READERS
        &&& self.index < u64::MAX
    }

    /// The stream index this loan views.
    pub fn index(&self) -> (r: u64)
        ensures
            r == self@.index,
    {
        self.index
    }

    /// The reader this loan was claimed for.
    pub fn reader_id(&self) -> (r: usize)
        ensures
            r == self@.reader_id,
    {
        self.reader_id
    }

    /// The loaned message, read in place. While the index is pinned this is
    /// the message published there.
    pub fn value<'a, T>(&self, mem: &'a RingMemory<T>) -> (r: &'a T)
        requires
            mem@.shaped(),
        ensures
            *r == mem@.message(self@.index as int),
            mem@.consistent() && pinned(mem@, self@.reader_id, self@.index as int) ==> *r
                == mem@.pending(self@.reader_id)[self@.index - mem@.cursor(self@.reader_id)],
    {
        assert(mem.slots.len() == mem@.slots.len());
        let capacity = (mem.header.capacity_mask() + 1) as usize;
        let slot = slot_index(self.index, capacity);
        proof {
            if mem@.consistent() && pinned(mem@, self@.reader_id, self@.index as int) {
                let c = mem@.cursor(self@.reader_id) as int;
                assert(c + (self@.index - c) == self@.index as int);
            }
        }
        &mem.slots[slot]
    }

    /// The loaned record as the bytes of its slot in the mapped `file`, for a
    /// ring of `capacity` slots of type `T`.
    pub fn as_bytes<'a, T>(&self, capacity: usize, file: &'a [u8]) -> (r: &'a [u8])
        requires
            is_pow2(capacity as int),
            vstd::layout::align_of::<T>() <= 64,
            crate::ring::layout_len(capacity as int, vstd::layout::size_of::<T>() as int)
                <= file@.len(),
        ensures
            ({
                let size = vstd::layout::size_of::<T>() as int;
                let start = crate::ring::slot_start(self@.index as int % capacity as int, size);
                r@ == file@.subrange(start, start + size)
            }),
            r@.len() == vstd::layout::size_of::<T>(),
    {
        assert(file@.len() == file.len());
        let start = slot_offset::<T>(self.index, capacity);
        let size = std::mem::size_of::<T>();
        slice_subrange(file, start, start + size)
    }

    /// Marks the loan resolved and lowers the loan gate of its reader.
    fn resolve<T: Copy>(&mut self, ring: &mut SpmcRingBuffer<T>)
        ensures
            final(self)@ == (LoanState { resolved: true, ..old(self)@ }),
            final(ring)@ == released(old(ring)@, old(self)@.reader_id),
    {
        proof {
            use_type_invariant(&*self);
        }
        self.resolved = true;
        ring.set_loan_depth(self.reader_id, ring.loan_depth(self.reader_id).wrapping_sub(1));
    }

    /// Advances the reader's cursor past this loan.
    ///
    /// Commits are strictly in order: off the cursor, nothing is written and
    /// the loan stays open. Committing a resolved loan does nothing.
    pub fn commit<T: Copy>(
        &mut self,
        ring: &mut SpmcRingBuffer<T>,
        mem: &mut RingMemory<T>,
    ) -> (r: Result<(), ShmRingError>)
        ensures
            0 <= old(self)@.reader_id < MAX_READERS,
            ({
                let id = old(self)@.reader_id;
                let s = old(mem)@;
                match r {
                    Ok(()) => if old(self)@.resolved {
                        &&& final(self)@ == old(self)@
                        &&& final(ring)@ == old(ring)@
                        &&& final(mem)@ == s
                    } else {
                        &&& s.cursor(id) == old(self)@.index
                        &&& final(self)@ == (LoanState { resolved: true, ..old(self)@ })
                        &&& final(ring)@ == released(old(ring)@, id)
                        &&& final(mem)@ == s.popped(id)
                    },
                    Err(ShmRingError::LoanNotAtCursor { index, cursor }) => {
                        &&& !old(self)@.resolved
                        &&& s.cursor(id) != old(self)@.index
                        &&& index == old(self)@.index
                        &&& cursor == s.cursor(id)
                        &&& final(self)@ == old(self)@
                        &&& final(ring)@ == old(ring)@
                        &&& final(mem)@ == s
                    },
                    Err(_) => false,
                }
            }),
    {
        proof {
            use_type_invariant(&*self);
        }
        if self.resolved {
            return Ok(());
        }
        let cursor = mem.header.read_idx(self.reader_id);
        if cursor != self.index {
            return Err(ShmRingError::LoanNotAtCursor { index: self.index, cursor });
        }
        mem.header.set_read_idx(self.reader_id, self.index + 1);
        self.resolve(ring);
        Ok(())
    }

    /// Releases the claim without consuming: the pipeline rewinds and the
    /// message can be claimed again.
    ///
    /// Loans at later indices stay open, but those indices, too, can be claimed
    /// again. Consuming one of two open loans at one index un-pins the other.
    pub fn abort<T: Copy>(self, ring: &mut SpmcRingBuffer<T>)
        ensures
            0 <= self@.reader_id < MAX_READERS,
            final(ring)@ == if self@.resolved {
                old(ring)@
            } else {
                rewound(old(ring)@, self@.reader_id, self@.index)
            },
    {
        proof {
            use_type_invariant(&self);
        }
        if !self.resolved {
            let base = ring.claim_base(self.reader_id);
            let head = if self.index < base {
                self.index
            } else {
                base
            };
            ring.set_claim_base(self.reader_id, head);
            let mut loan = self;
            loan.resolve(ring);
        }
    }

    /// Gives the loan up. At the cursor that consumes the message; off the
    /// cursor (the pipeline was rewound under it) it only lowers the loan gate,
    /// so it can never corrupt the pipeline.
    pub fn drop<T: Copy>(self, ring: &mut SpmcRingBuffer<T>, mem: &mut RingMemory<T>)
        ensures
            0 <= self@.reader_id < MAX_READERS,
            final(ring)@ == if self@.resolved {
                old(ring)@
            } else {
                released(old(ring)@, self@.reader_id)
            },
            final(mem)@ == if !self@.resolved && old(mem)@.cursor(self@.reader_id)
                == self@.index {
                old(mem)@.popped(self@.reader_id)
            } else {
                old(mem)@
            },
    {
        proof {
            use_type_invariant(&self);
        }
        if self.resolved {
            return ;
        }
        let cursor = mem.header.read_idx(self.reader_id);
        if cursor == self.index {
            mem.header.set_read_idx(self.reader_id, self.index + 1);
        }
        let mut loan = self;
        loan.resolve(ring);
    }
}

/// The producer cannot overwrite a loaned slot: a push leaves every pinned
/// index pinned, with the same message.
pub proof fn law_push_spares_pinned<T>(
    s: crate::ring::RingState<T>,
    value: T,
    r: int,
    idx: int,
)
    requires
        s.consistent(),
        s.has_room(),
        s.header.write_idx < u64::MAX,
        pinned(s, r, idx),
    ensures
        pinned(s.pushed(value), r, idx),
        s.pushed(value).message(idx) == s.message(idx),
{
    let t = s.pushed(value);
    crate::ring::law_push(s, value);
    let k = idx - s.cursor(r);
    assert(t.pending(r) == s.pending(r).push(value));
    assert(t.pending(r)[k] == s.pending(r)[k]);
    assert(s.pending(r)[k] == s.message(s.cursor(r) + k));
    assert(t.pending(r)[k] == t.message(t.cursor(r) + k));
}

/// A full queue stops the producer for as long as the loan at its front is
/// open: there is no room until the cursor moves.
pub proof fn law_front_loan_stops_producer<T>(s: crate::ring::RingState<T>, r: int)
    requires
        s.consistent(),
        pinned(s, r, s.cursor(r) as int),
        s.pending(r).len() == s.capacity(),
    ensures
        !s.has_room(),
        s.popped(r).pending(r).len() < s.capacity(),
{
    crate::ring::law_lag_is_longest_queue(s);
    crate::ring::law_pop(s, r);
}

/// Consuming a message un-pins no other index: after reader `q` consumed the
/// front of its queue, every index pinned for `r` is still pinned with the
/// same message, unless it is that very front.
pub proof fn law_consume_spares_other_pins<T>(
    s: crate::ring::RingState<T>,
    q: int,
    r: int,
    idx: int,
)
    requires
        s.consistent(),
        s.participant(q),
        s.cursor(q) < s.header.write_idx,
        pinned(s, r, idx),
        q != r || idx != s.cursor(q),
    ensures
        pinned(s.popped(q), r, idx),
        s.popped(q).message(idx) == s.message(idx),
{
}

/// Claiming, reading and committing is popping: from an aligned pipeline the
/// claim is for the reader's cursor, the loan views the front of its queue,
/// the commit moves the memory exactly as a pop does, and the loan gate is back
/// where it was.
pub proof fn law_claim_commit_is_pop<T>(
    h: crate::ring::HandleState,
    s: crate::ring::RingState<T>,
    r: int,
)
    requires
        s.consistent(),
        s.participant(r),
        h.claim_base.len() == MAX_READERS,
        h.loan_depth.len() == MAX_READERS,
        h.claim_base[r] <= s.cursor(r),
        s.cursor(r) < s.header.write_idx,
    ensures
        claim_index(h, s, r) == s.cursor(r),
        s.message(claim_index(h, s, r) as int) == s.pending(r)[0],
        s.popped(r).pending(r) == s.pending(r).drop_first(),
        released(claimed(h, r, s.cursor(r)), r).loan_depth == h.loan_depth,
        claim_index(released(claimed(h, r, s.cursor(r)), r), s.popped(r), r) == s.popped(r).cursor(
            r,
        ),
{
    crate::ring::law_pop(s, r);
    let h2 = released(claimed(h, r, s.cursor(r)), r);
    assert(h2.loan_depth =~= h.loan_depth);
}

/// Aborting makes the message claimable again: the next claim of the reader
/// is for the aborted index, or for an earlier one that is still open.
pub proof fn law_abort_makes_claimable<T>(
    h: crate::ring::HandleState,
    s: crate::ring::RingState<T>,
    r: int,
    idx: u64,
)
    requires
        s.participant(r),
        s.header.num_readers <= MAX_READERS,
        h.claim_base.len() == MAX_READERS,
        pinned(s, r, idx as int),
    ensures
        claim_index(rewound(h, r, idx), s, r) <= idx,
        idx <= h.claim_base[r] ==> claim_index(rewound(h, r, idx), s, r) == idx,
{
}

/// As long as nothing is aborted, no stream index is claimed twice: whatever
/// happened to the memory in between, a later claim is for a later index.
pub proof fn law_claims_advance<T>(
    h: crate::ring::HandleState,
    later: crate::ring::RingState<T>,
    r: int,
    idx: u64,
)
    requires
        0 <= r < h.claim_base.len(),
        idx < u64::MAX,
    ensures
        claim_index(claimed(h, r, idx), later, r) > idx,
{
}

/// The handle after `count` claims of reader `r` in a row.
pub open spec fn after_claims<T>(
    h: crate::ring::HandleState,
    s: crate::ring::RingState<T>,
    r: int,
    count: nat,
) -> crate::ring::HandleState
    decreases count,
{
    if count == 0 {
        h
    } else {
        let before = after_claims(h, s, r, (count - 1) as nat);
        claimed(before, r, claim_index(before, s, r))
    }
}

/// Claims may overlap, up to the whole queue and so up to the capacity: in a
/// row they are for consecutive indices from the cursor on, and once the
/// published stream is exhausted there is nothing left to claim.
pub proof fn law_overlapping_claims<T>(
    h: crate::ring::HandleState,
    s: crate::ring::RingState<T>,
    r: int,
    count: nat,
)
    requires
        s.consistent(),
        s.participant(r),
        h.claim_base.len() == MAX_READERS,
        h.claim_base[r] <= s.cursor(r),
        count <= s.pending(r).len(),
    ensures
        after_claims(h, s, r, count).claim_base.len() == MAX_READERS,
        claim_index(after_claims(h, s, r, count), s, r) == s.cursor(r) + count,
        count < s.pending(r).len() ==> pinned(s, r, s.cursor(r) + count),
        count == s.pending(r).len() ==> claim_index(after_claims(h, s, r, count), s, r)
            == s.header.write_idx,
        s.pending(r).len() <= s.capacity(),
    decreases count,
{
    assert(s.cursor(r) <= s.header.write_idx);
    if count > 0 {
        law_overlapping_claims(h, s, r, (count - 1) as nat);
    }
}

} // verus!
