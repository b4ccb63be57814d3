//! Failure modes of the ring, its loans, and the status block.

use vstd::prelude::*;

verus! {

/// The operating system's error value, carried through unread: an I/O
/// failure is reported to the caller exactly as the system call gave it.
#[verifier::external_type_specification]
#[verifier::external_body]
pub struct ExIoError(std::io::Error);

/// All failure modes of creating, opening, or operating on a ring.
#[derive(Debug)]
#[allow(inconsistent_fields)]
pub enum ShmRingError {
    /// The requested capacity is not a non-zero power of two, so masking
    /// (`idx & (capacity - 1)`) could not replace modulo arithmetic.
    InvalidCapacity {
        /// The rejected capacity.
        got: usize,
    },
    /// The path to create already exists. Creation is exclusive:
    /// re-initializing a ring that another process has mapped would corrupt it.
    AlreadyExists,
    /// The file is smaller than the layout requires, or no file can be large
    /// enough.
    FileTooShort {
        /// Bytes the layout requires (header plus slots); `u64::MAX` where a
        /// `u64` cannot count them.
        expected: u64,
        /// Bytes the file has; `0` where there is none yet.
        got: u64,
    },
    /// A validated header field does not hold its required value.
    HeaderCorruption {
        /// Name of the offending field (`"magic"`, `"capacity_mask"`).
        field: &'static str,
        /// The required value; `0` where the field must satisfy a structural
        /// invariant instead (the mask must be `2^k - 1`).
        expected: u64,
        /// The value found.
        got: u64,
    },
    /// The file was written by an incompatible format version.
    VersionMismatch {
        /// Version this build supports.
        expected: u32,
        /// Version stored in the file.
        got: u32,
    },
    /// An underlying file or descriptor operation failed.
    Io(std::io::Error),
    /// A consumer call named a reader that does not participate.
    InvalidReaderId {
        /// The rejected reader id.
        id: usize,
        /// Highest valid reader id; `0` where there is none.
        max: usize,
    },
    /// `try_pop` was called for a reader with an open loan: popping would
    /// advance the cursor over the loaned slot and un-pin it.
    LoanOutstanding {
        /// The reader with the open loan.
        reader_id: usize,
    },
    /// A loan was committed out of order. Nothing was written and the loan
    /// keeps pinning its slot.
    LoanNotAtCursor {
        /// The stream index the loan views.
        index: u64,
        /// The reader's current cursor.
        cursor: u64,
    },
}

} // verus!
