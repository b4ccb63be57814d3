//! Shared-memory rings: a lock-free single-producer, multi-consumer ring
//! buffer in a mapped file, verified.
//!
//! One producer publishes `Copy` messages; up to [`MAX_READERS`] independent
//! consumers each walk the whole stream. Flow control is backpressure alone:
//! the producer stops when the slowest participating reader lags by a full
//! capacity, and never overwrites what a participant has yet to read.
//!
//! - [`ring`]: the ring itself, [`SpmcRingBuffer`], over plain memory, with
//!   the decisions of creating and opening ring files; [`header`] is its
//!   control block, byte for byte.
//! - [`loan`]: zero-copy consumption. A claim reserves the next message, which
//!   is read in place and then committed, aborted or dropped.
//! - [`status`]: the counterpart for state rather than events, a validated
//!   plain-old-data record in a file.
//! - [`notify`]: the decisions around an event counter that consumers sleep
//!   on, and why no wakeup is lost.
//! - [`oracle`]: the ring against a specification as queues.
//! - [`protocol`]: the operations as sequences of single memory accesses, with
//!   their memory orderings, for memory that others use at the same time;
//!   [`interleaving`]: what holds of them in every interleaving.
//! - [`simulator`] and [`scenario`]: rings in use, run one access at a time;
//!   [`loom_ring`]: small scenarios and what they promise under any schedule.
//! - [`ring_laws`], [`loan_laws`], [`file_laws`], [`status_laws`],
//!   [`wait_laws`], [`machine_laws`], [`loom_laws`] and [`simulator_laws`]: what
//!   the functions above promise, said of calls, their arguments and their
//!   results alone, and how calls relate that follow one another.
//!
//! The library owns no file, mapping or descriptor. Whoever does performs the
//! accesses that [`protocol`] names and the system calls that [`notify`] asks
//! for.

pub mod error;
pub mod file_laws;
pub mod header;
pub mod interleaving;
pub mod loan;
pub mod loan_laws;
pub mod loom_laws;
pub mod loom_ring;
pub mod machine_laws;
pub mod notify;
pub mod oracle;
pub mod pow2;
pub mod protocol;
pub mod ring;
pub mod ring_laws;
pub mod scenario;
pub mod simulator;
pub mod simulator_laws;
pub mod status;
pub mod status_laws;
pub mod wait_laws;

pub use crate::error::ShmRingError;
pub use crate::header::{RingHeader, HEADER_SIZE, MAGIC, MAX_READERS, VERSION};
pub use crate::loan::Loan;
pub use crate::ring::SpmcRingBuffer;
