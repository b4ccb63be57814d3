# shm_rings

A lock-free, single-producer, multi-consumer ring buffer in a shared, mapped
file, verified with Verus.

One producer publishes `Copy` messages; up to eight independent consumers walk
the stream at their own pace. Flow control is backpressure alone: the producer
stops when the slowest participating reader lags by a full capacity. Beside
plain pops there are zero-copy loans, wakeups over an event counter, and a
validated status block for state rather than events.

## Layout

- `src/` is the library. Everything in it is verified.
  - `ring.rs`, `header.rs`: the ring over plain memory, its control block byte
    for byte, and the decisions of creating and opening ring files.
  - `loan.rs`: claims, commits, aborts.
  - `status.rs`: the status block.
  - `notify.rs`: which system call comes next, what its outcome means, and why
    no wakeup is lost.
  - `oracle.rs`: the ring agrees with one bounded queue per reader on every
    sequence of operations.
  - `protocol.rs`: every operation as a machine that names one memory access at
    a time, with its ordering. `interleaving.rs` proves what holds however the
    accesses of all parties interleave, stale loads included.
  - `simulator.rs`, `scenario.rs`, `loom_ring.rs`: rings in use, run one access
    at a time under a given schedule, with what four small scenarios promise
    under any.
- `app/` performs the accesses on a mapped file with atomics, makes the system
  calls, and runs the machines under loom.
- `tests/` runs the library.

## What is proved

- In every interleaving of pushes, pops and loans, of fewer than 2^64 messages,
  each reader's stream is exactly what was published, in order, with nothing
  skipped, repeated, torn or stale, and a slot is never written while a
  participant has yet to read it.
- An open loan pins its slot until its reader's cursor passes it. Without aborts
  no cursor passes an open loan. With them there is one way: after an abort an
  index can be claimed again while another loan on it is still open, and
  consuming one of the two leaves the other behind, un-pinned.
- The producer is refused exactly when some participant's queue is full, and
  recovers exactly when the last such participant advances. Cursors that claim
  messages never published stall it.
- A file is opened exactly when its header and length are right, and a created
  ring opens.
- A consumer asleep on an event counter of its own has taken every message that
  was signalled, and a wait gives up only once its limit has passed.
- A status block reads back as the value that was created or last updated.
- No operation panics or reaches outside the slots, whatever the write index
  and the cursors in the file say, and whatever it says of the number of
  readers up to the eight cursors there are. A larger number is shut out: it
  would send a push past the last cursor, and `app/` panics on it.

## What is relied on

Words are stored in the byte order of the machine that shares them; the
library is told which. Loads see values no older than the release and acquire
orderings allow, as `interleaving.rs` spells out. `std::io::Error` is carried
through unread.
