//! The ring's operations as sequences of single memory accesses.
//!
//! On a mapped file every word is an atomic that other parties read and write
//! at the same time, so an operation is not one step but several: load the
//! write index, load the cursors one by one, write the slot, publish. Each
//! operation here is a small machine that names the next access and is told
//! its answer; whoever owns the memory performs the accesses. The machines
//! decide everything: which word, in which order, with which memory ordering,
//! and what to make of the answers. [`crate::interleaving`] proves what holds
//! when any number of them run at once.
//!
//! # Memory ordering
//!
//! ```text
//! producer                          consumer
//! 1. write slot bytes
//! 2. write_idx += 1     Release     3. load write_idx   Acquire
//!                                   4. read slot bytes
//!                                   5. cursor += 1      Release
//! 6. load the cursors   Acquire
//! ```
//!
//! Steps 2 and 3 pass the slot bytes to the consumer; steps 5 and 6 pass the
//! fact that it is done with them back to the producer. The `Relaxed`
//! accesses are confined to words whose only writer is the party itself and
//! to the diagnostic counter. There is no stronger ordering to ask for.

use vstd::arithmetic::power2::*;
use vstd::prelude::*;

use crate::error::ShmRingError;
use crate::header::MAX_READERS;
use crate::ring::{slot_index, RingMemory, SpmcRingBuffer};

verus! {

/// Memory ordering of an access.
#[derive(Debug, Clone, Copy, PartialEq, Eq, Structural)]
pub enum MemOrder {
    /// No synchronization.
    Relaxed,
    /// Synchronizes with the release that stored the value.
    Acquire,
    /// Publishes everything done before.
    Release,
}

/// A word that the operations work on.
#[derive(Debug, Clone, Copy, PartialEq, Eq, Structural)]
pub enum Word {
    /// Messages ever published (shared).
    WriteIdx,
    /// Participating readers (shared).
    NumReaders,
    /// Diagnostic push counter (shared).
    TotalWritten,
    /// A reader's cursor (shared).
    ReadIdx {
        /// The reader.
        reader: usize,
    },
    /// A reader's pipeline head (of the handle).
    ClaimBase {
        /// The reader.
        reader: usize,
    },
    /// A reader's open loans (of the handle).
    LoanDepth {
        /// The reader.
        reader: usize,
    },
}

/// One access to memory.
#[derive(Debug, Clone, Copy, PartialEq, Eq, Structural)]
pub enum Access {
    /// Load a word; the answer is its value.
    Load {
        /// The word.
        word: Word,
        /// The ordering.
        order: MemOrder,
    },
    /// Store a word.
    Store {
        /// The word.
        word: Word,
        /// The new value.
        value: u64,
        /// The ordering.
        order: MemOrder,
    },
    /// Add one to a word, wrapping.
    Increment {
        /// The word.
        word: Word,
        /// The ordering.
        order: MemOrder,
    },
    /// Subtract one from a word, wrapping.
    Decrement {
        /// The word.
        word: Word,
        /// The ordering.
        order: MemOrder,
    },
    /// Lower a word to a value, if it is greater.
    Lower {
        /// The word.
        word: Word,
        /// The bound.
        value: u64,
        /// The ordering.
        order: MemOrder,
    },
    /// Replace a word if it holds `current`; the answer is 1 if it did, else 0.
    Exchange {
        /// The word.
        word: Word,
        /// The value it must hold.
        current: u64,
        /// The value it then gets.
        new: u64,
        /// The ordering.
        order: MemOrder,
    },
    /// Copy the message into a slot.
    WriteSlot {
        /// The slot number.
        slot: usize,
    },
    /// Copy the message out of a slot.
    ReadSlot {
        /// The slot number.
        slot: usize,
    },
    /// Nothing: the operation is finished.
    Done,
}

/// The value of a word.
pub open spec fn word_value<T>(
    mem: crate::ring::RingState<T>,
    handle: crate::ring::HandleState,
    word: Word,
) -> u64 {
    match word {
        Word::WriteIdx => mem.header.write_idx,
        Word::NumReaders => mem.header.num_readers as u64,
        Word::TotalWritten => mem.header.total_written,
        Word::ReadIdx { reader } => mem.cursor(reader as int),
        Word::ClaimBase { reader } => handle.claim_base[reader as int],
        Word::LoanDepth { reader } => handle.loan_depth[reader as int],
    }
}

/// The memory after a word was set.
pub open spec fn with_word<T>(
    mem: crate::ring::RingState<T>,
    word: Word,
    value: u64,
) -> crate::ring::RingState<T> {
    match word {
        Word::WriteIdx => crate::ring::RingState {
            header: mem.header.with_write_idx(value),
            ..mem
        },
        Word::TotalWritten => crate::ring::RingState {
            header: mem.header.with_total_written(value),
            ..mem
        },
        Word::ReadIdx { reader } => mem.with_cursor(reader as int, value),
        _ => mem,
    }
}

/// The handle after a word was set.
pub open spec fn with_local_word(
    handle: crate::ring::HandleState,
    word: Word,
    value: u64,
) -> crate::ring::HandleState {
    match word {
        Word::ClaimBase { reader } => handle.with_claim_base(reader as int, value),
        Word::LoanDepth { reader } => handle.with_loan_depth(reader as int, value),
        _ => handle,
    }
}

/// What an access leaves in the word it writes, or `None` if it writes none.
pub open spec fn written<T>(
    mem: crate::ring::RingState<T>,
    handle: crate::ring::HandleState,
    access: Access,
) -> Option<(Word, u64)> {
    match access {
        Access::Store { word, value, .. } => Some((word, value)),
        Access::Increment { word, .. } => Some(
            (word, crate::ring::succ(word_value(mem, handle, word))),
        ),
        Access::Decrement { word, .. } => Some(
            (word, crate::ring::pred(word_value(mem, handle, word))),
        ),
        Access::Lower { word, value, .. } => Some(
            (
                word,
                if value < word_value(mem, handle, word) {
                    value
                } else {
                    word_value(mem, handle, word)
                },
            ),
        ),
        Access::Exchange { word, current, new, .. } => if word_value(mem, handle, word)
            == current {
            Some((word, new))
        } else {
            None
        },
        _ => None,
    }
}

/// The memory after an access, where `value` is the message that a slot write
/// copies.
pub open spec fn memory_after<T>(
    mem: crate::ring::RingState<T>,
    handle: crate::ring::HandleState,
    access: Access,
    value: T,
) -> crate::ring::RingState<T> {
    match access {
        Access::WriteSlot { slot } => crate::ring::RingState {
            slots: mem.slots.update(slot as int, value),
            ..mem
        },
        _ => match written(mem, handle, access) {
            Some((word, v)) => with_word(mem, word, v),
            None => mem,
        },
    }
}

/// The handle after an access.
pub open spec fn handle_after<T>(
    mem: crate::ring::RingState<T>,
    handle: crate::ring::HandleState,
    access: Access,
) -> crate::ring::HandleState {
    match written(mem, handle, access) {
        Some((word, v)) => with_local_word(handle, word, v),
        None => handle,
    }
}

/// The answer that an access gets from memory that nobody else is changing.
pub open spec fn current_answer<T>(
    mem: crate::ring::RingState<T>,
    handle: crate::ring::HandleState,
    access: Access,
) -> u64 {
    match access {
        Access::Load { word, .. } => word_value(mem, handle, word),
        Access::Exchange { word, current, .. } => if word_value(mem, handle, word) == current {
            1
        } else {
            0
        },
        _ => 0,
    }
}

// ---------------------------------------------------------------------------
// Push
// ---------------------------------------------------------------------------

/// Where a push is.
#[derive(Debug, Clone, Copy, PartialEq, Eq, Structural)]
pub enum PushStage {
    /// About to load the write index.
    LoadWrite,
    /// About to load the number of participants.
    LoadReaders {
        /// The write index.
        w: u64,
    },
    /// Scanning the cursors of the participants.
    Scan {
        /// The write index.
        w: u64,
        /// Participants to scan.
        num_readers: usize,
        /// The next reader to scan.
        next: usize,
        /// The least cursor seen.
        least: u64,
    },
    /// There is room; about to write the slot.
    WriteSlot {
        /// The write index.
        w: u64,
    },
    /// The slot is written; about to publish it.
    Publish {
        /// The write index.
        w: u64,
    },
    /// Published; about to count it.
    Count,
    /// Finished.
    Done {
        /// Whether the message was published.
        pushed: bool,
    },
}

/// What follows a completed scan.
pub open spec fn push_decision(capacity: int, w: u64, least: u64) -> PushStage {
    if least <= w && w - least < capacity {
        PushStage::WriteSlot { w }
    } else {
        PushStage::Done { pushed: false }
    }
}

/// The access a push makes in a stage.
pub open spec fn push_access(capacity: int, stage: PushStage) -> Access {
    match stage {
        PushStage::LoadWrite => Access::Load { word: Word::WriteIdx, order: MemOrder::Relaxed },
        PushStage::LoadReaders { .. } => Access::Load {
            word: Word::NumReaders,
            order: MemOrder::Acquire,
        },
        PushStage::Scan { next, .. } => Access::Load {
            word: Word::ReadIdx { reader: next },
            order: MemOrder::Acquire,
        },
        PushStage::WriteSlot { w } => Access::WriteSlot { slot: (w as int % capacity) as usize },
        PushStage::Publish { w } => Access::Store {
            word: Word::WriteIdx,
            value: crate::ring::succ(w),
            order: MemOrder::Release,
        },
        PushStage::Count => Access::Increment {
            word: Word::TotalWritten,
            order: MemOrder::Relaxed,
        },
        PushStage::Done { .. } => Access::Done,
    }
}

/// The stage after that access got `answer`.
pub open spec fn push_next(capacity: int, stage: PushStage, answer: u64) -> PushStage {
    match stage {
        PushStage::LoadWrite => PushStage::LoadReaders { w: answer },
        PushStage::LoadReaders { w } => if answer == 0 {
            push_decision(capacity, w, u64::MAX)
        } else {
            PushStage::Scan { w, num_readers: answer as usize, next: 0, least: u64::MAX }
        },
        PushStage::Scan { w, num_readers, next, least } => {
            let l = if answer < least {
                answer
            } else {
                least
            };
            if next + 1 >= num_readers {
                push_decision(capacity, w, l)
            } else {
                PushStage::Scan { w, num_readers, next: (next + 1) as usize, least: l }
            }
        },
        PushStage::WriteSlot { w } => PushStage::Publish { w },
        PushStage::Publish { .. } => PushStage::Count,
        PushStage::Count => PushStage::Done { pushed: true },
        PushStage::Done { pushed } => PushStage::Done { pushed },
    }
}

/// A push in progress.
#[derive(Debug, Clone, Copy)]
pub struct PushOp {
    /// Number of slots.
    pub capacity: usize,
    /// Where it is.
    pub stage: PushStage,
}

impl PushOp {
    /// A push about to begin.
    pub fn new(capacity: usize) -> (r: Self)
        ensures
            r.capacity == capacity,
            r.stage == PushStage::LoadWrite,
    {
        PushOp { capacity, stage: PushStage::LoadWrite }
    }

    /// The access to make next.
    pub fn access(&self) -> (r: Access)
        requires
            is_pow2(self.capacity as int),
        ensures
            r == push_access(self.capacity as int, self.stage),
    {
        match self.stage {
            PushStage::LoadWrite => Access::Load { word: Word::WriteIdx, order: MemOrder::Relaxed },
            PushStage::LoadReaders { .. } => Access::Load {
                word: Word::NumReaders,
                order: MemOrder::Acquire,
            },
            PushStage::Scan { next, .. } => Access::Load {
                word: Word::ReadIdx { reader: next },
                order: MemOrder::Acquire,
            },
            PushStage::WriteSlot { w } => Access::WriteSlot { slot: slot_index(w, self.capacity) },
            PushStage::Publish { w } => Access::Store {
                word: Word::WriteIdx,
                value: w.wrapping_add(1),
                order: MemOrder::Release,
            },
            PushStage::Count => Access::Increment {
                word: Word::TotalWritten,
                order: MemOrder::Relaxed,
            },
            PushStage::Done { .. } => Access::Done,
        }
    }

    /// Takes note of the answer to that access.
    pub fn advance(&mut self, answer: u64)
        requires
            old(self).stage is LoadReaders ==> answer <= MAX_READERS,
        ensures
            final(self).capacity == old(self).capacity,
            final(self).stage == push_next(old(self).capacity as int, old(self).stage, answer),
    {
        let capacity = self.capacity;
        self.stage = match self.stage {
            PushStage::LoadWrite => PushStage::LoadReaders { w: answer },
            PushStage::LoadReaders { w } => if answer == 0 {
                Self::decide(capacity, w, u64::MAX)
            } else {
                PushStage::Scan { w, num_readers: answer as usize, next: 0, least: u64::MAX }
            },
            PushStage::Scan { w, num_readers, next, least } => {
                let l = if answer < least {
                    answer
                } else {
                    least
                };
                if next >= num_readers || next + 1 >= num_readers {
                    Self::decide(capacity, w, l)
                } else {
                    PushStage::Scan { w, num_readers, next: next + 1, least: l }
                }
            },
            PushStage::WriteSlot { w } => PushStage::Publish { w },
            PushStage::Publish { .. } => PushStage::Count,
            PushStage::Count => PushStage::Done { pushed: true },
            PushStage::Done { pushed } => PushStage::Done { pushed },
        };
    }

    /// The decision after the scan: is the slowest participant behind, and by
    /// less than a capacity?
    fn decide(capacity: usize, w: u64, least: u64) -> (r: PushStage)
        ensures
            r == push_decision(capacity as int, w, least),
    {
        if least <= w && w - least < capacity as u64 {
            PushStage::WriteSlot { w }
        } else {
            PushStage::Done { pushed: false }
        }
    }

    /// Whether the push is finished, and if so whether it published.
    pub fn outcome(&self) -> (r: Option<bool>)
        ensures
            r == match self.stage {
                PushStage::Done { pushed } => Some(pushed),
                _ => None,
            },
    {
        match self.stage {
            PushStage::Done { pushed } => Some(pushed),
            _ => None,
        }
    }
}

// ---------------------------------------------------------------------------
// Pop
// ---------------------------------------------------------------------------

/// How a consumer operation ended.
#[derive(Debug, Clone, Copy, PartialEq, Eq, Structural)]
pub enum PopOutcome {
    /// The reader does not participate.
    InvalidReader {
        /// Highest valid reader id.
        max: usize,
    },
    /// The reader has an open loan on this handle.
    Blocked,
    /// The reader has caught up.
    Empty,
    /// A message was consumed.
    Taken,
}

/// Where a pop is.
#[derive(Debug, Clone, Copy, PartialEq, Eq, Structural)]
pub enum PopStage {
    /// About to load the number of participants.
    LoadReaders,
    /// About to look at the loan gate.
    LoadGate,
    /// About to load the write index.
    LoadWrite,
    /// About to load the reader's own cursor.
    LoadCursor {
        /// The write index.
        w: u64,
    },
    /// There is a message; about to read its slot.
    ReadSlot {
        /// The cursor.
        r: u64,
    },
    /// The slot is read; about to advance the cursor.
    Advance {
        /// The cursor.
        r: u64,
    },
    /// Finished.
    Done {
        /// How.
        outcome: PopOutcome,
    },
}

/// The access a pop of `reader` makes in a stage.
pub open spec fn pop_access(capacity: int, reader: usize, stage: PopStage) -> Access {
    match stage {
        PopStage::LoadReaders => Access::Load { word: Word::NumReaders, order: MemOrder::Acquire },
        PopStage::LoadGate => Access::Load {
            word: Word::LoanDepth { reader },
            order: MemOrder::Relaxed,
        },
        PopStage::LoadWrite => Access::Load { word: Word::WriteIdx, order: MemOrder::Acquire },
        PopStage::LoadCursor { .. } => Access::Load {
            word: Word::ReadIdx { reader },
            order: MemOrder::Acquire,
        },
        PopStage::ReadSlot { r } => Access::ReadSlot { slot: (r as int % capacity) as usize },
        PopStage::Advance { r } => Access::Store {
            word: Word::ReadIdx { reader },
            value: crate::ring::succ(r),
            order: MemOrder::Release,
        },
        PopStage::Done { .. } => Access::Done,
    }
}

/// The stage after that access got `answer`.
pub open spec fn pop_next(reader: usize, stage: PopStage, answer: u64) -> PopStage {
    match stage {
        PopStage::LoadReaders => if reader >= answer {
            PopStage::Done {
                outcome: PopOutcome::InvalidReader {
                    max: crate::ring::highest_reader(answer as int) as usize,
                },
            }
        } else {
            PopStage::LoadGate
        },
        PopStage::LoadGate => if answer != 0 {
            PopStage::Done { outcome: PopOutcome::Blocked }
        } else {
            PopStage::LoadWrite
        },
        PopStage::LoadWrite => PopStage::LoadCursor { w: answer },
        PopStage::LoadCursor { w } => if answer == w {
            PopStage::Done { outcome: PopOutcome::Empty }
        } else {
            PopStage::ReadSlot { r: answer }
        },
        PopStage::ReadSlot { r } => PopStage::Advance { r },
        PopStage::Advance { .. } => PopStage::Done { outcome: PopOutcome::Taken },
        PopStage::Done { outcome } => PopStage::Done { outcome },
    }
}

/// A pop in progress.
#[derive(Debug, Clone, Copy)]
pub struct PopOp {
    /// Number of slots.
    pub capacity: usize,
    /// The reader.
    pub reader: usize,
    /// Where it is.
    pub stage: PopStage,
}

impl PopOp {
    /// A pop about to begin.
    pub fn new(capacity: usize, reader: usize) -> (r: Self)
        ensures
            r.capacity == capacity,
            r.reader == reader,
            r.stage == PopStage::LoadReaders,
    {
        PopOp { capacity, reader, stage: PopStage::LoadReaders }
    }

    /// The access to make next.
    pub fn access(&self) -> (r: Access)
        requires
            is_pow2(self.capacity as int),
        ensures
            r == pop_access(self.capacity as int, self.reader, self.stage),
    {
        let reader = self.reader;
        match self.stage {
            PopStage::LoadReaders => Access::Load {
                word: Word::NumReaders,
                order: MemOrder::Acquire,
            },
            PopStage::LoadGate => Access::Load {
                word: Word::LoanDepth { reader },
                order: MemOrder::Relaxed,
            },
            PopStage::LoadWrite => Access::Load { word: Word::WriteIdx, order: MemOrder::Acquire },
            PopStage::LoadCursor { .. } => Access::Load {
                word: Word::ReadIdx { reader },
                order: MemOrder::Acquire,
            },
            PopStage::ReadSlot { r } => Access::ReadSlot { slot: slot_index(r, self.capacity) },
            PopStage::Advance { r } => Access::Store {
                word: Word::ReadIdx { reader },
                value: r.wrapping_add(1),
                order: MemOrder::Release,
            },
            PopStage::Done { .. } => Access::Done,
        }
    }

    /// Takes note of the answer to that access.
    pub fn advance(&mut self, answer: u64)
        requires
            old(self).stage is LoadReaders ==> {
                &&& answer <= u32::MAX
                &&& old(self).reader < answer ==> old(self).reader < MAX_READERS
            },
        ensures
            final(self).capacity == old(self).capacity,
            final(self).reader == old(self).reader,
            final(self).stage == pop_next(old(self).reader, old(self).stage, answer),
    {
        let reader = self.reader;
        self.stage = match self.stage {
            PopStage::LoadReaders => if reader as u64 >= answer {
                PopStage::Done {
                    outcome: PopOutcome::InvalidReader { max: answer.saturating_sub(1) as usize },
                }
            } else {
                PopStage::LoadGate
            },
            PopStage::LoadGate => if answer != 0 {
                PopStage::Done { outcome: PopOutcome::Blocked }
            } else {
                PopStage::LoadWrite
            },
            PopStage::LoadWrite => PopStage::LoadCursor { w: answer },
            PopStage::LoadCursor { w } => if answer == w {
                PopStage::Done { outcome: PopOutcome::Empty }
            } else {
                PopStage::ReadSlot { r: answer }
            },
            PopStage::ReadSlot { r } => PopStage::Advance { r },
            PopStage::Advance { .. } => PopStage::Done { outcome: PopOutcome::Taken },
            PopStage::Done { outcome } => PopStage::Done { outcome },
        };
    }

    /// The result of a finished pop that read `held` out of the slot.
    pub fn result<T>(&self, held: Option<T>) -> (r: Result<Option<T>, ShmRingError>)
        requires
            self.stage is Done,
            self.stage == (PopStage::Done { outcome: PopOutcome::Taken }) ==> held is Some,
        ensures
            self.stage matches PopStage::Done { outcome } && match r {
                Ok(None) => outcome == PopOutcome::Empty,
                Ok(Some(v)) => outcome == PopOutcome::Taken && held == Some(v),
                Err(ShmRingError::LoanOutstanding { reader_id }) => {
                    &&& outcome == PopOutcome::Blocked
                    &&& reader_id == self.reader
                },
                Err(ShmRingError::InvalidReaderId { id, max }) => {
                    &&& outcome == (PopOutcome::InvalidReader { max })
                    &&& id == self.reader
                },
                Err(_) => false,
            },
    {
        match self.stage {
            PopStage::Done { outcome } => match outcome {
                PopOutcome::InvalidReader { max } => Err(
                    ShmRingError::InvalidReaderId { id: self.reader, max },
                ),
                PopOutcome::Blocked => Err(
                    ShmRingError::LoanOutstanding { reader_id: self.reader },
                ),
                PopOutcome::Empty => Ok(None),
                PopOutcome::Taken => Ok(held),
            },
            _ => Ok(None),
        }
    }
}

// ---------------------------------------------------------------------------
// Claim
// ---------------------------------------------------------------------------

/// How a claim ended.
#[derive(Debug, Clone, Copy, PartialEq, Eq, Structural)]
pub enum ClaimOutcome {
    /// The reader does not participate.
    InvalidReader {
        /// Highest valid reader id.
        max: usize,
    },
    /// Nothing is published at the claim position.
    Nothing,
    /// A stream index was reserved.
    Claimed {
        /// The stream index.
        idx: u64,
    },
}

/// Where a claim is.
#[derive(Debug, Clone, Copy, PartialEq, Eq, Structural)]
pub enum ClaimStage {
    /// About to load the number of participants.
    LoadReaders,
    /// About to raise the loan gate, before the cursor is looked at.
    RaiseGate,
    /// About to load the write index.
    LoadWrite,
    /// About to load the reader's own cursor.
    LoadCursor {
        /// The write index.
        w: u64,
    },
    /// About to load the pipeline head.
    LoadBase {
        /// The write index.
        w: u64,
        /// The cursor.
        cursor: u64,
    },
    /// About to reserve the index, unless another claim moved the head.
    Reserve {
        /// The pipeline head.
        base: u64,
        /// The index to reserve.
        idx: u64,
    },
    /// Nothing to claim; about to lower the loan gate again.
    LowerGate,
    /// Finished.
    Done {
        /// How.
        outcome: ClaimOutcome,
    },
}

/// The access a claim of `reader` makes in a stage.
pub open spec fn claim_access(reader: usize, stage: ClaimStage) -> Access {
    match stage {
        ClaimStage::LoadReaders => Access::Load {
            word: Word::NumReaders,
            order: MemOrder::Acquire,
        },
        ClaimStage::RaiseGate => Access::Increment {
            word: Word::LoanDepth { reader },
            order: MemOrder::Relaxed,
        },
        ClaimStage::LoadWrite => Access::Load { word: Word::WriteIdx, order: MemOrder::Acquire },
        ClaimStage::LoadCursor { .. } => Access::Load {
            word: Word::ReadIdx { reader },
            order: MemOrder::Acquire,
        },
        ClaimStage::LoadBase { .. } => Access::Load {
            word: Word::ClaimBase { reader },
            order: MemOrder::Relaxed,
        },
        ClaimStage::Reserve { base, idx } => Access::Exchange {
            word: Word::ClaimBase { reader },
            current: base,
            new: crate::ring::succ(idx),
            order: MemOrder::Relaxed,
        },
        ClaimStage::LowerGate => Access::Decrement {
            word: Word::LoanDepth { reader },
            order: MemOrder::Relaxed,
        },
        ClaimStage::Done { .. } => Access::Done,
    }
}

/// The stage after that access got `answer`.
pub open spec fn claim_next(reader: usize, stage: ClaimStage, answer: u64) -> ClaimStage {
    match stage {
        ClaimStage::LoadReaders => if reader >= answer {
            ClaimStage::Done {
                outcome: ClaimOutcome::InvalidReader {
                    max: crate::ring::highest_reader(answer as int) as usize,
                },
            }
        } else {
            ClaimStage::RaiseGate
        },
        ClaimStage::RaiseGate => ClaimStage::LoadWrite,
        ClaimStage::LoadWrite => ClaimStage::LoadCursor { w: answer },
        ClaimStage::LoadCursor { w } => ClaimStage::LoadBase { w, cursor: answer },
        ClaimStage::LoadBase { w, cursor } => {
            let idx = if answer >= cursor {
                answer
            } else {
                cursor
            };
            if idx >= w {
                ClaimStage::LowerGate
            } else {
                ClaimStage::Reserve { base: answer, idx }
            }
        },
        ClaimStage::Reserve { idx, .. } => if answer == 1 {
            ClaimStage::Done { outcome: ClaimOutcome::Claimed { idx } }
        } else {
            ClaimStage::LoadWrite
        },
        ClaimStage::LowerGate => ClaimStage::Done { outcome: ClaimOutcome::Nothing },
        ClaimStage::Done { outcome } => ClaimStage::Done { outcome },
    }
}

/// A claim in progress.
#[derive(Debug, Clone, Copy)]
pub struct ClaimOp {
    /// The reader.
    pub reader: usize,
    /// Where it is.
    pub stage: ClaimStage,
}

impl ClaimOp {
    /// A claim about to begin.
    pub fn new(reader: usize) -> (r: Self)
        ensures
            r.reader == reader,
            r.stage == ClaimStage::LoadReaders,
    {
        ClaimOp { reader, stage: ClaimStage::LoadReaders }
    }

    /// The access to make next.
    pub fn access(&self) -> (r: Access)
        ensures
            r == claim_access(self.reader, self.stage),
    {
        let reader = self.reader;
        match self.stage {
            ClaimStage::LoadReaders => Access::Load {
                word: Word::NumReaders,
                order: MemOrder::Acquire,
            },
            ClaimStage::RaiseGate => Access::Increment {
                word: Word::LoanDepth { reader },
                order: MemOrder::Relaxed,
            },
            ClaimStage::LoadWrite => Access::Load {
                word: Word::WriteIdx,
                order: MemOrder::Acquire,
            },
            ClaimStage::LoadCursor { .. } => Access::Load {
                word: Word::ReadIdx { reader },
                order: MemOrder::Acquire,
            },
            ClaimStage::LoadBase { .. } => Access::Load {
                word: Word::ClaimBase { reader },
                order: MemOrder::Relaxed,
            },
            ClaimStage::Reserve { base, idx } => Access::Exchange {
                word: Word::ClaimBase { reader },
                current: base,
                new: idx.wrapping_add(1),
                order: MemOrder::Relaxed,
            },
            ClaimStage::LowerGate => Access::Decrement {
                word: Word::LoanDepth { reader },
                order: MemOrder::Relaxed,
            },
            ClaimStage::Done { .. } => Access::Done,
        }
    }

    /// Takes note of the answer to that access.
    pub fn advance(&mut self, answer: u64)
        requires
            old(self).stage is LoadReaders ==> {
                &&& answer <= u32::MAX
                &&& old(self).reader < answer ==> old(self).reader < MAX_READERS
            },
        ensures
            final(self).reader == old(self).reader,
            final(self).stage == claim_next(old(self).reader, old(self).stage, answer),
    {
        let reader = self.reader;
        self.stage = match self.stage {
            ClaimStage::LoadReaders => if reader as u64 >= answer {
                ClaimStage::Done {
                    outcome: ClaimOutcome::InvalidReader { max: answer.saturating_sub(1) as usize },
                }
            } else {
                ClaimStage::RaiseGate
            },
            ClaimStage::RaiseGate => ClaimStage::LoadWrite,
            ClaimStage::LoadWrite => ClaimStage::LoadCursor { w: answer },
            ClaimStage::LoadCursor { w } => ClaimStage::LoadBase { w, cursor: answer },
            ClaimStage::LoadBase { w, cursor } => {
                let idx = if answer >= cursor {
                    answer
                } else {
                    cursor
                };
                if idx >= w {
                    ClaimStage::LowerGate
                } else {
                    ClaimStage::Reserve { base: answer, idx }
                }
            },
            ClaimStage::Reserve { idx, .. } => if answer == 1 {
                ClaimStage::Done { outcome: ClaimOutcome::Claimed { idx } }
            } else {
                ClaimStage::LoadWrite
            },
            ClaimStage::LowerGate => ClaimStage::Done { outcome: ClaimOutcome::Nothing },
            ClaimStage::Done { outcome } => ClaimStage::Done { outcome },
        };
    }

    /// The stream index that a finished claim reserved, if it did.
    pub fn result(&self) -> (r: Result<Option<u64>, ShmRingError>)
        requires
            self.stage is Done,
        ensures
            self.stage matches ClaimStage::Done { outcome } && match r {
                Ok(None) => outcome == ClaimOutcome::Nothing,
                Ok(Some(idx)) => outcome == (ClaimOutcome::Claimed { idx }),
                Err(ShmRingError::InvalidReaderId { id, max }) => {
                    &&& outcome == (ClaimOutcome::InvalidReader { max })
                    &&& id == self.reader
                },
                Err(_) => false,
            },
    {
        match self.stage {
            ClaimStage::Done { outcome } => match outcome {
                ClaimOutcome::InvalidReader { max } => Err(
                    ShmRingError::InvalidReaderId { id: self.reader, max },
                ),
                ClaimOutcome::Nothing => Ok(None),
                ClaimOutcome::Claimed { idx } => Ok(Some(idx)),
            },
            _ => Ok(None),
        }
    }
}

// ---------------------------------------------------------------------------
// Resolving a loan
// ---------------------------------------------------------------------------

/// How a loan is to be resolved.
#[derive(Debug, Clone, Copy, PartialEq, Eq, Structural)]
pub enum ResolveMode {
    /// Consume it; refused off the cursor.
    Commit,
    /// Consume it at the cursor, else just release it.
    Drop,
    /// Release it unconsumed and rewind the pipeline.
    Abort,
}

/// Where the resolution of a loan is.
#[derive(Debug, Clone, Copy, PartialEq, Eq, Structural)]
pub enum ResolveStage {
    /// About to load the reader's cursor.
    LoadCursor,
    /// At the cursor; about to advance it.
    Advance,
    /// About to rewind the pipeline head.
    Rewind,
    /// About to lower the loan gate.
    LowerGate,
    /// Finished: the loan is resolved.
    Resolved,
    /// Finished: the loan is off the cursor and stays open.
    NotAtCursor {
        /// The reader's cursor.
        cursor: u64,
    },
}

/// The stage a resolution begins in.
pub open spec fn resolve_start(mode: ResolveMode) -> ResolveStage {
    match mode {
        ResolveMode::Abort => ResolveStage::Rewind,
        _ => ResolveStage::LoadCursor,
    }
}

/// The access that the resolution of the loan of `reader` at `index` makes in
/// a stage.
pub open spec fn resolve_access(reader: usize, index: u64, stage: ResolveStage) -> Access {
    match stage {
        ResolveStage::LoadCursor => Access::Load {
            word: Word::ReadIdx { reader },
            order: MemOrder::Acquire,
        },
        ResolveStage::Advance => Access::Store {
            word: Word::ReadIdx { reader },
            value: crate::ring::succ(index),
            order: MemOrder::Release,
        },
        ResolveStage::Rewind => Access::Lower {
            word: Word::ClaimBase { reader },
            value: index,
            order: MemOrder::Relaxed,
        },
        ResolveStage::LowerGate => Access::Decrement {
            word: Word::LoanDepth { reader },
            order: MemOrder::Relaxed,
        },
        _ => Access::Done,
    }
}

/// The stage after that access got `answer`.
pub open spec fn resolve_next(
    mode: ResolveMode,
    index: u64,
    stage: ResolveStage,
    answer: u64,
) -> ResolveStage {
    match stage {
        ResolveStage::LoadCursor => if answer == index {
            ResolveStage::Advance
        } else if mode == ResolveMode::Commit {
            ResolveStage::NotAtCursor { cursor: answer }
        } else {
            ResolveStage::LowerGate
        },
        ResolveStage::Advance => ResolveStage::LowerGate,
        ResolveStage::Rewind => ResolveStage::LowerGate,
        ResolveStage::LowerGate => ResolveStage::Resolved,
        _ => stage,
    }
}

/// The resolution of a loan in progress.
#[derive(Debug, Clone, Copy)]
pub struct ResolveOp {
    /// The reader.
    pub reader: usize,
    /// The stream index of the loan.
    pub index: u64,
    /// How it is to be resolved.
    pub mode: ResolveMode,
    /// Where it is.
    pub stage: ResolveStage,
}

impl ResolveOp {
    /// A resolution about to begin.
    pub fn new(reader: usize, index: u64, mode: ResolveMode) -> (r: Self)
        ensures
            r.reader == reader,
            r.index == index,
            r.mode == mode,
            r.stage == resolve_start(mode),
    {
        let stage = match mode {
            ResolveMode::Abort => ResolveStage::Rewind,
            _ => ResolveStage::LoadCursor,
        };
        ResolveOp { reader, index, mode, stage }
    }

    /// The access to make next.
    pub fn access(&self) -> (r: Access)
        ensures
            r == resolve_access(self.reader, self.index, self.stage),
    {
        let reader = self.reader;
        match self.stage {
            ResolveStage::LoadCursor => Access::Load {
                word: Word::ReadIdx { reader },
                order: MemOrder::Acquire,
            },
            ResolveStage::Advance => Access::Store {
                word: Word::ReadIdx { reader },
                value: self.index.wrapping_add(1),
                order: MemOrder::Release,
            },
            ResolveStage::Rewind => Access::Lower {
                word: Word::ClaimBase { reader },
                value: self.index,
                order: MemOrder::Relaxed,
            },
            ResolveStage::LowerGate => Access::Decrement {
                word: Word::LoanDepth { reader },
                order: MemOrder::Relaxed,
            },
            _ => Access::Done,
        }
    }

    /// Takes note of the answer to that access.
    pub fn advance(&mut self, answer: u64)
        ensures
            final(self).reader == old(self).reader,
            final(self).index == old(self).index,
            final(self).mode == old(self).mode,
            final(self).stage == resolve_next(
                old(self).mode,
                old(self).index,
                old(self).stage,
                answer,
            ),
    {
        self.stage = match self.stage {
            ResolveStage::LoadCursor => if answer == self.index {
                ResolveStage::Advance
            } else if self.mode == ResolveMode::Commit {
                ResolveStage::NotAtCursor { cursor: answer }
            } else {
                ResolveStage::LowerGate
            },
            ResolveStage::Advance => ResolveStage::LowerGate,
            ResolveStage::Rewind => ResolveStage::LowerGate,
            ResolveStage::LowerGate => ResolveStage::Resolved,
            ResolveStage::Resolved => ResolveStage::Resolved,
            ResolveStage::NotAtCursor { cursor } => ResolveStage::NotAtCursor { cursor },
        };
    }

    /// The result of a finished resolution.
    pub fn result(&self) -> (r: Result<(), ShmRingError>)
        requires
            self.stage is Resolved || self.stage is NotAtCursor,
        ensures
            match r {
                Ok(()) => self.stage == ResolveStage::Resolved,
                Err(ShmRingError::LoanNotAtCursor { index, cursor }) => {
                    &&& self.stage == (ResolveStage::NotAtCursor { cursor })
                    &&& index == self.index
                },
                Err(_) => false,
            },
    {
        match self.stage {
            ResolveStage::NotAtCursor { cursor } => Err(
                ShmRingError::LoanNotAtCursor { index: self.index, cursor },
            ),
            _ => Ok(()),
        }
    }
}

/// The orderings carry the two message-passing edges: whatever stage an
/// operation is in, a store to a word that another party loads is a release,
/// a load of a word that another party stores is an acquire, and only the
/// party's own words and the diagnostic counter are accessed relaxed.
pub proof fn law_shared_words_synchronize(
    capacity: int,
    reader: usize,
    index: u64,
    push: PushStage,
    pop: PopStage,
    claim: ClaimStage,
    resolve: ResolveStage,
)
    ensures
        push_access(capacity, push) matches Access::Store { order, .. } ==> order
            == MemOrder::Release,
        pop_access(capacity, reader, pop) matches Access::Store { order, .. } ==> order
            == MemOrder::Release,
        claim_access(reader, claim) !is Store,
        resolve_access(reader, index, resolve) matches Access::Store { order, .. } ==> order
            == MemOrder::Release,
        push_access(capacity, push) matches Access::Load { word, order } ==> order
            == MemOrder::Acquire || word == Word::WriteIdx,
        pop_access(capacity, reader, pop) matches Access::Load { word, order } ==> order
            == MemOrder::Acquire || word is LoanDepth,
        claim_access(reader, claim) matches Access::Load { word, order } ==> order
            == MemOrder::Acquire || word is ClaimBase,
        resolve_access(reader, index, resolve) matches Access::Load { order, .. } ==> order
            == MemOrder::Acquire,
{
}

// ---------------------------------------------------------------------------
// Performing an access on memory that is at hand
// ---------------------------------------------------------------------------

/// The readers that an access names exist.
pub open spec fn in_bounds(access: Access) -> bool {
    let word_ok = |w: Word|
        match w {
            Word::ReadIdx { reader } => reader < MAX_READERS,
            Word::ClaimBase { reader } => reader < MAX_READERS,
            Word::LoanDepth { reader } => reader < MAX_READERS,
            _ => true,
        };
    match access {
        Access::Load { word, .. } => word_ok(word),
        Access::Store { word, .. } => word_ok(word) && word != Word::NumReaders,
        Access::Increment { word, .. } => word_ok(word) && word != Word::NumReaders,
        Access::Decrement { word, .. } => word_ok(word) && word != Word::NumReaders,
        Access::Lower { word, .. } => word_ok(word) && word != Word::NumReaders,
        Access::Exchange { word, .. } => word_ok(word) && word != Word::NumReaders,
        _ => true,
    }
}

/// Reads a word.
fn load_word<T: Copy>(mem: &RingMemory<T>, ring: &SpmcRingBuffer<T>, word: Word) -> (r: u64)
    requires
        in_bounds(Access::Load { word, order: MemOrder::Acquire }),
    ensures
        r == word_value(mem@, ring@, word),
{
    match word {
        Word::WriteIdx => mem.header.write_idx(),
        Word::NumReaders => mem.header.num_readers() as u64,
        Word::TotalWritten => mem.header.total_written(),
        Word::ReadIdx { reader } => mem.header.read_idx(reader),
        Word::ClaimBase { reader } => ring.claim_base(reader),
        Word::LoanDepth { reader } => ring.loan_depth(reader),
    }
}

/// Sets a word.
fn store_word<T: Copy>(
    mem: &mut RingMemory<T>,
    ring: &mut SpmcRingBuffer<T>,
    word: Word,
    value: u64,
)
    requires
        in_bounds(Access::Load { word, order: MemOrder::Acquire }),
    ensures
        final(mem)@ == with_word(old(mem)@, word, value),
        final(ring)@ == with_local_word(old(ring)@, word, value),
{
    match word {
        Word::WriteIdx => {
            mem.header.set_write_idx(value);
        },
        Word::NumReaders => {},
        Word::TotalWritten => {
            mem.header.set_total_written(value);
        },
        Word::ReadIdx { reader } => {
            mem.header.set_read_idx(reader, value);
        },
        Word::ClaimBase { reader } => {
            ring.set_claim_base(reader, value);
        },
        Word::LoanDepth { reader } => {
            ring.set_loan_depth(reader, value);
        },
    }
    assert(mem@ =~= with_word(old(mem)@, word, value));
}

/// Performs an access that moves no message, and gives its answer.
pub fn perform<T: Copy>(
    mem: &mut RingMemory<T>,
    ring: &mut SpmcRingBuffer<T>,
    access: Access,
) -> (answer: u64)
    requires
        in_bounds(access),
        access !is WriteSlot,
    ensures
        answer == current_answer(old(mem)@, old(ring)@, access),
        forall|value: T|
            final(mem)@ == #[trigger] memory_after(old(mem)@, old(ring)@, access, value),
        final(ring)@ == handle_after(old(mem)@, old(ring)@, access),
{
    match access {
        Access::Load { word, .. } => load_word(mem, ring, word),
        Access::Store { word, value, .. } => {
            store_word(mem, ring, word, value);
            0
        },
        Access::Increment { word, .. } => {
            let v = load_word(mem, ring, word);
            store_word(mem, ring, word, v.wrapping_add(1));
            0
        },
        Access::Decrement { word, .. } => {
            let v = load_word(mem, ring, word);
            store_word(mem, ring, word, v.wrapping_sub(1));
            0
        },
        Access::Lower { word, value, .. } => {
            let v = load_word(mem, ring, word);
            store_word(
                mem,
                ring,
                word,
                if value < v {
                    value
                } else {
                    v
                },
            );
            0
        },
        Access::Exchange { word, current, new, .. } => {
            if load_word(mem, ring, word) == current {
                store_word(mem, ring, word, new);
                1
            } else {
                0
            }
        },
        _ => 0,
    }
}

/// Racing claims reserve different messages: a reservation never begins
/// before the pipeline head it saw, so one that succeeds after another moved
/// the head is for a later index, as long as no abort moved it back.
pub proof fn law_racing_claims_differ<T>(
    mem: crate::ring::RingState<T>,
    before: crate::ring::HandleState,
    later: crate::ring::HandleState,
    reader: usize,
    first: (u64, u64, u64),
    second: (u64, u64, u64),
)
    requires
        reader < MAX_READERS,
        before.claim_base.len() == MAX_READERS,
        ({
            // What each claim saw: the write index, the cursor, the head.
            let a = claim_next(
                reader,
                ClaimStage::LoadBase { w: first.0, cursor: first.1 },
                first.2,
            );
            let b = claim_next(
                reader,
                ClaimStage::LoadBase { w: second.0, cursor: second.1 },
                second.2,
            );
            &&& a is Reserve
            &&& b is Reserve
            // The first reservation succeeds, the head does not move back, and
            // the second reservation succeeds.
            &&& current_answer(mem, before, claim_access(reader, a)) == 1
            &&& handle_after(mem, before, claim_access(reader, a)).claim_base[reader as int]
                <= later.claim_base[reader as int]
            &&& current_answer(mem, later, claim_access(reader, b)) == 1
        }),
    ensures
        ({
            let a = claim_next(
                reader,
                ClaimStage::LoadBase { w: first.0, cursor: first.1 },
                first.2,
            );
            let b = claim_next(
                reader,
                ClaimStage::LoadBase { w: second.0, cursor: second.1 },
                second.2,
            );
            &&& a matches ClaimStage::Reserve { idx: i, .. }
            &&& b matches ClaimStage::Reserve { idx: j, .. }
            &&& i < j
        }),
{
}

// ---------------------------------------------------------------------------
// Running undisturbed
// ---------------------------------------------------------------------------

/// How far a push is from its end: the phase, then the cursors left to scan.
pub open spec fn push_phase(stage: PushStage) -> nat {
    match stage {
        PushStage::LoadWrite => 6,
        PushStage::LoadReaders { .. } => 5,
        PushStage::Scan { .. } => 4,
        PushStage::WriteSlot { .. } => 3,
        PushStage::Publish { .. } => 2,
        PushStage::Count => 1,
        PushStage::Done { .. } => 0,
    }
}

/// The cursors a push has left to scan.
pub open spec fn push_left(stage: PushStage) -> nat {
    match stage {
        PushStage::Scan { num_readers, next, .. } => if next < num_readers {
            (num_readers - next) as nat
        } else {
            0
        },
        _ => 0,
    }
}

/// The memory and the outcome when a push runs to its end from `stage` while
/// nobody else touches the memory.
pub open spec fn push_alone<T>(
    mem: crate::ring::RingState<T>,
    handle: crate::ring::HandleState,
    stage: PushStage,
    value: T,
) -> (crate::ring::RingState<T>, bool)
    decreases push_phase(stage), push_left(stage),
{
    match stage {
        PushStage::Done { pushed } => (mem, pushed),
        _ => {
            let access = push_access(mem.capacity(), stage);
            push_alone(
                memory_after(mem, handle, access, value),
                handle,
                push_next(mem.capacity(), stage, current_answer(mem, handle, access)),
                value,
            )
        },
    }
}

/// The scan computes the slowest cursor.
proof fn lemma_scan_alone<T>(
    mem: crate::ring::RingState<T>,
    handle: crate::ring::HandleState,
    stage: PushStage,
    value: T,
)
    requires
        mem.shaped(),
        mem.all_have_cursors(),
        stage matches PushStage::Scan { w, num_readers, next, least } && {
            &&& num_readers == mem.header.num_readers
            &&& next < num_readers
            &&& least == crate::header::slowest(mem.header.read_indices.take(next as int))
        },
    ensures
        stage matches PushStage::Scan { w, .. } && push_alone(mem, handle, stage, value)
            == push_alone(
            mem,
            handle,
            push_decision(mem.capacity(), w, mem.slowest_cursor()),
            value,
        ),
    decreases push_left(stage),
{
    match stage {
        PushStage::Scan { w, num_readers, next, least } => {
            let cursors = mem.header.read_indices;
            assert(cursors.take(next + 1).drop_last() =~= cursors.take(next as int));
            let access = push_access(mem.capacity(), stage);
            let answer = current_answer(mem, handle, access);
            assert(answer == cursors[next as int]);
            let l = if answer < least {
                answer
            } else {
                least
            };
            assert(l == crate::header::slowest(cursors.take(next + 1)));
            if next + 1 < num_readers {
                let rest = PushStage::Scan { w, num_readers, next: (next + 1) as usize, least: l };
                lemma_scan_alone(mem, handle, rest, value);
            }
        },
        _ => {},
    }
}

/// Run alone, the accesses of a push add up to the push: the message is
/// published exactly when there is room.
pub proof fn law_push_alone<T>(
    mem: crate::ring::RingState<T>,
    handle: crate::ring::HandleState,
    value: T,
)
    requires
        mem.shaped(),
        mem.all_have_cursors(),
        mem.capacity() <= usize::MAX,
    ensures
        push_alone(mem, handle, PushStage::LoadWrite, value) == (
            if mem.has_room() {
                mem.pushed(value)
            } else {
                mem
            },
            mem.has_room(),
        ),
{
    reveal_with_fuel(push_alone, 7);
    let w = mem.header.write_idx;
    let scan = PushStage::Scan {
        w,
        num_readers: mem.header.num_readers as usize,
        next: 0,
        least: u64::MAX,
    };
    assert(mem.header.read_indices.take(0).len() == 0);
    if mem.header.num_readers > 0 {
        lemma_scan_alone(mem, handle, scan, value);
    }
    vstd::arithmetic::div_mod::lemma_mod_bound(w as int, mem.capacity());
    if mem.has_room() {
        let cap = mem.capacity();
        let m1 = memory_after(mem, handle, push_access(cap, PushStage::WriteSlot { w }), value);
        let m2 = memory_after(m1, handle, push_access(cap, PushStage::Publish { w }), value);
        let m3 = memory_after(m2, handle, push_access(cap, PushStage::Count), value);
        assert(m3 =~= mem.pushed(value));
        assert(push_alone(mem, handle, PushStage::WriteSlot { w }, value) == (m3, true));
    }
}

/// How far a pop is from its end.
pub open spec fn pop_phase(stage: PopStage) -> nat {
    match stage {
        PopStage::LoadReaders => 6,
        PopStage::LoadGate => 5,
        PopStage::LoadWrite => 4,
        PopStage::LoadCursor { .. } => 3,
        PopStage::ReadSlot { .. } => 2,
        PopStage::Advance { .. } => 1,
        PopStage::Done { .. } => 0,
    }
}

/// The memory, the message read and the outcome when a pop runs to its end
/// from `stage` while nobody else touches the memory.
pub open spec fn pop_alone<T>(
    mem: crate::ring::RingState<T>,
    handle: crate::ring::HandleState,
    reader: usize,
    stage: PopStage,
    held: Option<T>,
) -> (crate::ring::RingState<T>, Option<T>, PopOutcome)
    decreases pop_phase(stage),
{
    match stage {
        PopStage::Done { outcome } => (mem, held, outcome),
        _ => {
            let access = pop_access(mem.capacity(), reader, stage);
            pop_alone(
                memory_after(mem, handle, access, mem.slots[0]),
                handle,
                reader,
                pop_next(reader, stage, current_answer(mem, handle, access)),
                match access {
                    Access::ReadSlot { slot } => Some(mem.slots[slot as int]),
                    _ => held,
                },
            )
        },
    }
}

/// Run alone, the accesses of a pop add up to the pop.
pub proof fn law_pop_alone<T>(
    mem: crate::ring::RingState<T>,
    handle: crate::ring::HandleState,
    reader: usize,
)
    requires
        mem.shaped(),
        mem.has_cursor(reader as int),
        mem.capacity() <= usize::MAX,
    ensures
        ({
            let id = reader as int;
            pop_alone(mem, handle, reader, PopStage::LoadReaders, None) == if !mem.participant(id) {
                (
                    mem,
                    None,
                    PopOutcome::InvalidReader {
                        max: crate::ring::highest_reader(mem.header.num_readers as int) as usize,
                    },
                )
            } else if handle.loan_depth[id] != 0 {
                (mem, None, PopOutcome::Blocked)
            } else if mem.cursor(id) == mem.header.write_idx {
                (mem, None, PopOutcome::Empty)
            } else {
                (mem.popped(id), Some(mem.message(mem.cursor(id) as int)), PopOutcome::Taken)
            }
        }),
{
    reveal_with_fuel(pop_alone, 8);
    if mem.participant(reader as int) {
        vstd::arithmetic::div_mod::lemma_mod_bound(
            mem.cursor(reader as int) as int,
            mem.capacity(),
        );
    }
}

/// The handle and the outcome when a claim runs to its end from `stage` while
/// nobody else touches the memory or the handle.
pub open spec fn claim_alone<T>(
    mem: crate::ring::RingState<T>,
    handle: crate::ring::HandleState,
    reader: usize,
    stage: ClaimStage,
    fuel: nat,
) -> (crate::ring::HandleState, Option<ClaimOutcome>)
    decreases fuel,
{
    match stage {
        ClaimStage::Done { outcome } => (handle, Some(outcome)),
        _ => if fuel == 0 {
            (handle, None)
        } else {
            let access = claim_access(reader, stage);
            claim_alone(
                mem,
                handle_after(mem, handle, access),
                reader,
                claim_next(reader, stage, current_answer(mem, handle, access)),
                (fuel - 1) as nat,
            )
        },
    }
}

/// Run alone, the accesses of a claim add up to the claim, in at most six of
/// them, and none of them writes shared memory.
pub proof fn law_claim_alone<T>(
    mem: crate::ring::RingState<T>,
    handle: crate::ring::HandleState,
    reader: usize,
    stage: ClaimStage,
    value: T,
)
    requires
        mem.shaped(),
        mem.has_cursor(reader as int),
        handle.claim_base.len() == MAX_READERS,
        handle.loan_depth.len() == MAX_READERS,
    ensures
        memory_after(mem, handle, claim_access(reader, stage), value) == mem,
        ({
            let id = reader as int;
            let idx = crate::loan::claim_index(handle, mem, id);
            claim_alone(mem, handle, reader, ClaimStage::LoadReaders, 6)
                == if !mem.participant(id) {
                (
                    handle,
                    Some(
                        ClaimOutcome::InvalidReader {
                            max: crate::ring::highest_reader(
                                mem.header.num_readers as int,
                            ) as usize,
                        },
                    ),
                )
            } else if idx >= mem.header.write_idx {
                (handle, Some(ClaimOutcome::Nothing))
            } else {
                (crate::loan::claimed(handle, id, idx), Some(ClaimOutcome::Claimed { idx }))
            }
        }),
{
    reveal_with_fuel(claim_alone, 8);
    let id = reader as int;
    if mem.participant(id) {
        let idx = crate::loan::claim_index(handle, mem, id);
        let h1 = handle_after(mem, handle, claim_access(reader, ClaimStage::RaiseGate));
        if idx >= mem.header.write_idx {
            let h2 = handle_after(mem, h1, claim_access(reader, ClaimStage::LowerGate));
            assert(h2 =~= handle);
        } else {
            let h2 = handle_after(
                mem,
                h1,
                claim_access(reader, ClaimStage::Reserve { base: handle.claim_base[id], idx }),
            );
            assert(h2 =~= crate::loan::claimed(handle, id, idx));
        }
    }
}

/// The memory, the handle and the final stage when the resolution of a loan
/// runs to its end while nobody else touches either.
pub open spec fn resolve_alone<T>(
    mem: crate::ring::RingState<T>,
    handle: crate::ring::HandleState,
    reader: usize,
    index: u64,
    mode: ResolveMode,
    stage: ResolveStage,
    fuel: nat,
) -> (crate::ring::RingState<T>, crate::ring::HandleState, ResolveStage)
    decreases fuel,
{
    if fuel == 0 || stage is Resolved || stage is NotAtCursor {
        (mem, handle, stage)
    } else {
        let access = resolve_access(reader, index, stage);
        resolve_alone(
            memory_after(mem, handle, access, mem.slots[0]),
            handle_after(mem, handle, access),
            reader,
            index,
            mode,
            resolve_next(mode, index, stage, current_answer(mem, handle, access)),
            (fuel - 1) as nat,
        )
    }
}

/// Run alone, the accesses that resolve a loan add up to the commit, the drop
/// or the abort, in at most three of them.
pub proof fn law_resolve_alone<T>(
    mem: crate::ring::RingState<T>,
    handle: crate::ring::HandleState,
    reader: usize,
    index: u64,
)
    requires
        mem.shaped(),
        mem.participant(reader as int),
        handle.claim_base.len() == MAX_READERS,
        handle.loan_depth.len() == MAX_READERS,
    ensures
        ({
            let id = reader as int;
            let cursor = mem.cursor(id);
            &&& resolve_alone(
                mem,
                handle,
                reader,
                index,
                ResolveMode::Commit,
                resolve_start(ResolveMode::Commit),
                3,
            ) == if cursor == index {
                (mem.popped(id), crate::loan::released(handle, id), ResolveStage::Resolved)
            } else {
                (mem, handle, ResolveStage::NotAtCursor { cursor })
            }
            &&& resolve_alone(
                mem,
                handle,
                reader,
                index,
                ResolveMode::Drop,
                resolve_start(ResolveMode::Drop),
                3,
            ) == (
                if cursor == index {
                    mem.popped(id)
                } else {
                    mem
                },
                crate::loan::released(handle, id),
                ResolveStage::Resolved,
            )
            &&& resolve_alone(
                mem,
                handle,
                reader,
                index,
                ResolveMode::Abort,
                resolve_start(ResolveMode::Abort),
                3,
            ) == (mem, crate::loan::rewound(handle, id, index), ResolveStage::Resolved)
        }),
{
    reveal_with_fuel(resolve_alone, 4);
}

} // verus!
