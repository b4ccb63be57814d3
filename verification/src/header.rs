//! The control block at the start of every ring file: its words, their
//! byte layout, and their validation.
//!
//! A [`RingHeader`] holds the words as plain values. It is what a creator
//! writes into a fresh file, and what an opener or an operation has loaded
//! from a mapped one; which atomic access loads or stores each word, and in
//! which order, is the business of [`crate::protocol`].
//!
//! Layout (256 bytes: four cache lines, so that no header word shares a line
//! with slot data):
//!
//! | offset | word            | meaning                                     |
//! |--------|-----------------|---------------------------------------------|
//! | 0      | `magic`         | [`MAGIC`] identity marker                   |
//! | 8      | `version`       | [`VERSION`]                                 |
//! | 12     | `num_readers`   | participating reader cursors                |
//! | 16     | padding         |                                             |
//! | 24     | `write_idx`     | messages ever published                     |
//! | 32     | `read_indices`  | per-reader consumed counters                |
//! | 96     | `capacity_mask` | capacity less one                           |
//! | 104    | `total_written` | diagnostic counter                          |
//! | 112    | padding         | out to [`HEADER_SIZE`]                      |
//!
//! A ring is shared by the processes of one machine, so its words are in that
//! machine's byte order; the encoding takes the [`ByteOrder`] to use.

use vstd::arithmetic::power2::*;
use vstd::bytes::*;
use vstd::prelude::*;

use crate::error::ShmRingError;
use crate::pow2::is_power_of_two;

verus! {

/// Identity marker at offset 0: `"RINGSPMC"` as big-endian ASCII.
pub const MAGIC: u64 = 0x5249_4E47_5350_4D43;

/// On-disk format version; bump on any layout change.
pub const VERSION: u32 = 1;

/// Number of reader cursors in every header.
pub const MAX_READERS: usize = 8;

/// Size of the header in bytes; slot data starts at this offset.
pub const HEADER_SIZE: usize = 256;

/// Byte offset of the magic marker.
pub const MAGIC_OFFSET: usize = 0;

/// Byte offset of the format version.
pub const VERSION_OFFSET: usize = 8;

/// Byte offset of the participating reader count.
pub const NUM_READERS_OFFSET: usize = 12;

/// Byte offset of the write index.
pub const WRITE_IDX_OFFSET: usize = 24;

/// Byte offset of reader 0's cursor; the others follow, eight bytes each.
pub const READ_INDICES_OFFSET: usize = 32;

/// Byte offset of the capacity mask.
pub const CAPACITY_MASK_OFFSET: usize = 96;

/// Byte offset of the diagnostic push counter.
pub const TOTAL_WRITTEN_OFFSET: usize = 104;

/// The words of a ring header.
#[derive(Debug, Clone, Copy)]
pub struct RingHeader {
    /// Identity marker.
    pub magic: u64,
    /// Format version.
    pub version: u32,
    /// Participating reader cursors.
    pub num_readers: u32,
    /// Messages ever published.
    pub write_idx: u64,
    /// Messages consumed, per reader.
    pub read_indices: [u64; MAX_READERS],
    /// Capacity less one.
    pub capacity_mask: u64,
    /// Successful pushes (diagnostic).
    pub total_written: u64,
}

/// The mathematical content of a [`RingHeader`].
#[verifier::ext_equal]
pub struct HeaderState {
    /// Identity marker.
    pub magic: u64,
    /// Format version.
    pub version: u32,
    /// Participating reader cursors.
    pub num_readers: u32,
    /// Messages ever published.
    pub write_idx: u64,
    /// Messages consumed, per reader.
    pub read_indices: Seq<u64>,
    /// Capacity less one.
    pub capacity_mask: u64,
    /// Successful pushes (diagnostic).
    pub total_written: u64,
}

impl View for RingHeader {
    type V = HeaderState;

    open spec fn view(&self) -> HeaderState {
        HeaderState {
            magic: self.magic,
            version: self.version,
            num_readers: self.num_readers,
            write_idx: self.write_idx,
            read_indices: self.read_indices@,
            capacity_mask: self.capacity_mask,
            total_written: self.total_written,
        }
    }
}

/// The least of `cursors`; `u64::MAX` when there is none.
pub open spec fn slowest(cursors: Seq<u64>) -> u64
    decreases cursors.len(),
{
    if cursors.len() == 0 {
        u64::MAX
    } else {
        let rest = slowest(cursors.drop_last());
        if cursors.last() < rest {
            cursors.last()
        } else {
            rest
        }
    }
}

impl HeaderState {
    /// The header of a freshly created ring.
    pub open spec fn fresh(capacity_mask: u64, num_readers: nat) -> Self {
        HeaderState {
            magic: MAGIC,
            version: VERSION,
            num_readers: num_readers as u32,
            write_idx: 0,
            read_indices: Seq::new(MAX_READERS as nat, |i: int| 0u64),
            capacity_mask,
            total_written: 0,
        }
    }

    /// The mask is one less than a power of two that fits in a `u64`.
    pub open spec fn mask_valid(self) -> bool {
        &&& self.capacity_mask < u64::MAX
        &&& is_pow2(self.capacity_mask + 1)
    }

    /// Everything an opener checks of the header alone.
    pub open spec fn valid(self) -> bool {
        &&& self.magic == MAGIC
        &&& self.version == VERSION
        &&& self.mask_valid()
    }

    /// The first check that fails, in the order magic, version, mask, is the
    /// one that `err` reports, with the offending value.
    pub open spec fn rejected_with(self, err: ShmRingError) -> bool {
        if self.magic != MAGIC {
            &&& err matches ShmRingError::HeaderCorruption { field, expected, got }
            &&& field@ == "magic"@
            &&& expected == MAGIC
            &&& got == self.magic
        } else if self.version != VERSION {
            &&& err matches ShmRingError::VersionMismatch { expected, got }
            &&& expected == VERSION
            &&& got == self.version
        } else {
            &&& !self.mask_valid()
            &&& err matches ShmRingError::HeaderCorruption { field, expected, got }
            &&& field@ == "capacity_mask"@
            &&& expected == 0
            &&& got == self.capacity_mask
        }
    }

    /// This header with another write index.
    pub open spec fn with_write_idx(self, v: u64) -> Self {
        HeaderState { write_idx: v, ..self }
    }

    /// This header with reader `i`'s cursor at `v`.
    pub open spec fn with_read_idx(self, i: int, v: u64) -> Self {
        HeaderState { read_indices: self.read_indices.update(i, v), ..self }
    }

    /// This header with another push count.
    pub open spec fn with_total_written(self, v: u64) -> Self {
        HeaderState { total_written: v, ..self }
    }
}

/// The order in which a word's bytes are stored.
#[derive(Debug, Clone, Copy, PartialEq, Eq, Structural)]
pub enum ByteOrder {
    /// Least significant byte first.
    Little,
    /// Most significant byte first.
    Big,
}

/// The bytes of a word stored in `order`, least significant first.
pub open spec fn least_first(stored: Seq<u8>, order: ByteOrder) -> Seq<u8> {
    match order {
        ByteOrder::Little => stored,
        ByteOrder::Big => stored.reverse(),
    }
}

/// The `u64` stored in `order` at `offset`.
pub open spec fn u64_at(bytes: Seq<u8>, offset: int, order: ByteOrder) -> u64 {
    spec_u64_from_le_bytes(least_first(bytes.subrange(offset, offset + 8), order))
}

/// The `u32` stored in `order` at `offset`.
pub open spec fn u32_at(bytes: Seq<u8>, offset: int, order: ByteOrder) -> u32 {
    spec_u32_from_le_bytes(least_first(bytes.subrange(offset, offset + 4), order))
}

/// The header words that `bytes` stores, in `order`, at their documented
/// offsets.
pub open spec fn decoded(bytes: Seq<u8>, order: ByteOrder) -> HeaderState {
    HeaderState {
        magic: u64_at(bytes, MAGIC_OFFSET as int, order),
        version: u32_at(bytes, VERSION_OFFSET as int, order),
        num_readers: u32_at(bytes, NUM_READERS_OFFSET as int, order),
        write_idx: u64_at(bytes, WRITE_IDX_OFFSET as int, order),
        read_indices: Seq::new(
            MAX_READERS as nat,
            |i: int| u64_at(bytes, READ_INDICES_OFFSET + 8 * i, order),
        ),
        capacity_mask: u64_at(bytes, CAPACITY_MASK_OFFSET as int, order),
        total_written: u64_at(bytes, TOTAL_WRITTEN_OFFSET as int, order),
    }
}

/// Offsets that no header word covers.
pub open spec fn is_padding(offset: int) -> bool {
    16 <= offset < WRITE_IDX_OFFSET || 112 <= offset < HEADER_SIZE
}

/// The slowest cursor bounds every cursor from below and is one of them.
pub proof fn lemma_slowest(cursors: Seq<u64>)
    ensures
        forall|i: int| 0 <= i < cursors.len() ==> slowest(cursors) <= #[trigger] cursors[i],
        cursors.len() > 0 ==> exists|i: int|
            0 <= i < cursors.len() && #[trigger] cursors[i] == slowest(cursors),
    decreases cursors.len(),
{
    if cursors.len() > 0 {
        let init = cursors.drop_last();
        lemma_slowest(init);
        assert forall|i: int| 0 <= i < cursors.len() implies slowest(cursors)
            <= #[trigger] cursors[i] by {
            if i < init.len() {
                assert(init[i] == cursors[i]);
            }
        }
        if cursors.last() < slowest(init) || init.len() == 0 {
            assert(cursors[cursors.len() - 1] == slowest(cursors));
        } else {
            let j = choose|j: int| 0 <= j < init.len() && init[j] == slowest(init);
            assert(cursors[j] == slowest(cursors));
        }
    }
}

/// The bytes `bytes[start..end]` of a word stored in `order`, least significant
/// first.
fn word_bytes(bytes: &[u8], start: usize, end: usize, order: ByteOrder) -> (r: Vec<u8>)
    requires
        start <= end <= bytes@.len(),
    ensures
        r@ == least_first(bytes@.subrange(start as int, end as int), order),
{
    let mut r: Vec<u8> = Vec::new();
    let ghost stored = bytes@.subrange(start as int, end as int);
    let mut i: usize = start;
    while i < end
        invariant
            start <= i <= end <= bytes@.len(),
            stored == bytes@.subrange(start as int, end as int),
            r@ == least_first(stored, order).take(i - start),
        decreases end - i,
    {
        let byte = match order {
            ByteOrder::Little => bytes[i],
            ByteOrder::Big => bytes[end - 1 - (i - start)],
        };
        r.push(byte);
        i += 1;
        assert(r@ =~= least_first(stored, order).take(i - start));
    }
    assert(r@ =~= least_first(stored, order));
    r
}

/// The `u64` stored in `order` at `offset`.
pub(crate) fn read_u64(bytes: &[u8], offset: usize, order: ByteOrder) -> (r: u64)
    requires
        offset + 8 <= bytes@.len(),
    ensures
        r == u64_at(bytes@, offset as int, order),
{
    assert(bytes@.len() == bytes.len());
    u64_from_le_bytes(word_bytes(bytes, offset, offset + 8, order).as_slice())
}

/// The `u32` stored in `order` at `offset`.
pub(crate) fn read_u32(bytes: &[u8], offset: usize, order: ByteOrder) -> (r: u32)
    requires
        offset + 4 <= bytes@.len(),
    ensures
        r == u32_at(bytes@, offset as int, order),
{
    assert(bytes@.len() == bytes.len());
    u32_from_le_bytes(word_bytes(bytes, offset, offset + 4, order).as_slice())
}

/// Appends a word to `out` in `order`, from its bytes, least significant
/// first.
fn append_word(out: &mut Vec<u8>, word: Vec<u8>, order: ByteOrder)
    ensures
        final(out)@ == old(out)@ + least_first(word@, order),
        least_first(least_first(word@, order), order) == word@,
{
    let mut stored = word_bytes(word.as_slice(), 0, word.len(), order);
    assert(word@.subrange(0, word@.len() as int) =~= word@);
    assert(least_first(least_first(word@, order), order) =~= word@);
    out.append(&mut stored);
}

/// Appends `v` to `out` in `order`.
fn append_u64(out: &mut Vec<u8>, v: u64, order: ByteOrder)
    ensures
        final(out)@.len() == old(out)@.len() + 8,
        u64_at(final(out)@, old(out)@.len() as int, order) == v,
        forall|i: int| 0 <= i < old(out)@.len() ==> final(out)@[i] == old(out)@[i],
{
    proof {
        lemma_auto_spec_u64_to_from_le_bytes();
    }
    let word = u64_to_le_bytes(v);
    let ghost stored = least_first(word@, order);
    append_word(out, word, order);
    assert(out@.subrange(old(out)@.len() as int, old(out)@.len() as int + 8) =~= stored);
}

/// Appends `v` to `out` in `order`.
fn append_u32(out: &mut Vec<u8>, v: u32, order: ByteOrder)
    ensures
        final(out)@.len() == old(out)@.len() + 4,
        u32_at(final(out)@, old(out)@.len() as int, order) == v,
        forall|i: int| 0 <= i < old(out)@.len() ==> final(out)@[i] == old(out)@[i],
{
    proof {
        lemma_auto_spec_u32_to_from_le_bytes();
    }
    let word = u32_to_le_bytes(v);
    let ghost stored = least_first(word@, order);
    append_word(out, word, order);
    assert(out@.subrange(old(out)@.len() as int, old(out)@.len() as int + 4) =~= stored);
}

/// Appends `count` zero bytes to `out`.
fn append_zeros(out: &mut Vec<u8>, count: usize)
    ensures
        final(out)@ == old(out)@ + Seq::new(count as nat, |i: int| 0u8),
{
    let mut i: usize = 0;
    while i < count
        invariant
            i <= count,
            out@ == old(out)@ + Seq::new(i as nat, |i: int| 0u8),
        decreases count - i,
    {
        out.push(0);
        i += 1;
        assert(out@ =~= old(out)@ + Seq::new(i as nat, |i: int| 0u8));
    }
}

/// Bytes below `end` that agree store the same words there.
proof fn lemma_prefix_words(a: Seq<u8>, b: Seq<u8>, end: int, order: ByteOrder)
    requires
        0 <= end <= a.len(),
        end <= b.len(),
        forall|i: int| 0 <= i < end ==> a[i] == b[i],
    ensures
        forall|o: int|
            0 <= o && o + 8 <= end ==> #[trigger] u64_at(a, o, order) == u64_at(b, o, order),
        forall|o: int|
            0 <= o && o + 4 <= end ==> #[trigger] u32_at(a, o, order) == u32_at(b, o, order),
{
    assert forall|o: int| 0 <= o && o + 8 <= end implies #[trigger] u64_at(a, o, order) == u64_at(
        b,
        o,
        order,
    ) by {
        assert(a.subrange(o, o + 8) =~= b.subrange(o, o + 8));
    }
    assert forall|o: int| 0 <= o && o + 4 <= end implies #[trigger] u32_at(a, o, order) == u32_at(
        b,
        o,
        order,
    ) by {
        assert(a.subrange(o, o + 4) =~= b.subrange(o, o + 4));
    }
}

impl RingHeader {
    /// The header of a freshly created ring: identity stamped, every counter
    /// at zero.
    pub fn new(capacity_mask: u64, num_readers: usize) -> (r: Self)
        requires
            1 <= num_readers <= MAX_READERS,
        ensures
            r@ == HeaderState::fresh(capacity_mask, num_readers as nat),
    {
        let r = RingHeader {
            magic: MAGIC,
            version: VERSION,
            num_readers: num_readers as u32,
            write_idx: 0,
            read_indices: [0; MAX_READERS],
            capacity_mask,
            total_written: 0,
        };
        assert(r@ =~= HeaderState::fresh(capacity_mask, num_readers as nat));
        r
    }

    /// Checks, in order, the magic, the version, and that the mask is
    /// `2^k - 1`. The file length is the caller's to check: it depends on the
    /// slot size.
    pub fn validate(&self) -> (r: Result<(), ShmRingError>)
        ensures
            match r {
                Ok(()) => self@.valid(),
                Err(err) => !self@.valid() && self@.rejected_with(err),
            },
            r is Ok <==> {
                &&& self.magic == MAGIC
                &&& self.version == VERSION
                &&& self.capacity_mask < u64::MAX
                &&& is_pow2(self.capacity_mask + 1)
            },
    {
        if self.magic != MAGIC {
            return Err(
                ShmRingError::HeaderCorruption {
                    field: "magic",
                    expected: MAGIC,
                    got: self.magic,
                },
            );
        }
        if self.version != VERSION {
            return Err(
                ShmRingError::VersionMismatch { expected: VERSION, got: self.version },
            );
        }
        let mask = self.capacity_mask;
        // A mask of all ones would stand for 2^64 slots, which no `u64` counts.
        if mask == u64::MAX || !is_power_of_two(mask + 1) {
            return Err(
                ShmRingError::HeaderCorruption { field: "capacity_mask", expected: 0, got: mask },
            );
        }
        Ok(())
    }

    /// Messages ever published.
    pub fn write_idx(&self) -> (r: u64)
        ensures
            r == self@.write_idx,
    {
        self.write_idx
    }

    /// Publishes a new write index.
    pub fn set_write_idx(&mut self, v: u64)
        ensures
            final(self)@ == old(self)@.with_write_idx(v),
    {
        self.write_idx = v;
    }

    /// Reader `i`'s consumed counter.
    pub fn read_idx(&self, i: usize) -> (r: u64)
        requires
            i < MAX_READERS,
        ensures
            r == self@.read_indices[i as int],
    {
        self.read_indices[i]
    }

    /// Moves reader `i`'s consumed counter to `v`.
    pub fn set_read_idx(&mut self, i: usize, v: u64)
        requires
            i < MAX_READERS,
        ensures
            final(self)@ == old(self)@.with_read_idx(i as int, v),
    {
        self.read_indices[i] = v;
    }

    /// The least of the first `num_readers` cursors: the position of the
    /// slowest participant. Cursors beyond them never take part.
    pub fn slowest_read_idx(&self, num_readers: usize) -> (r: u64)
        requires
            num_readers <= MAX_READERS,
        ensures
            r == slowest(self@.read_indices.take(num_readers as int)),
    {
        let mut least: u64 = u64::MAX;
        let mut i: usize = 0;
        while i < num_readers
            invariant
                i <= num_readers <= MAX_READERS,
                least == slowest(self@.read_indices.take(i as int)),
            decreases num_readers - i,
        {
            let cursor = self.read_indices[i];
            if cursor < least {
                least = cursor;
            }
            proof {
                let next = self@.read_indices.take(i + 1);
                assert(next.drop_last() =~= self@.read_indices.take(i as int));
            }
            i += 1;
        }
        least
    }

    /// Capacity less one, as stored at creation.
    pub fn capacity_mask(&self) -> (r: u64)
        ensures
            r == self@.capacity_mask,
    {
        self.capacity_mask
    }

    /// Successful pushes since creation (diagnostic).
    pub fn total_written(&self) -> (r: u64)
        ensures
            r == self@.total_written,
    {
        self.total_written
    }

    /// Sets the diagnostic push counter.
    pub fn set_total_written(&mut self, v: u64)
        ensures
            final(self)@ == old(self)@.with_total_written(v),
    {
        self.total_written = v;
    }

    /// Counts one more push; the counter wraps like the atomic it stands for.
    pub fn bump_total_written(&mut self)
        ensures
            final(self)@ == old(self)@.with_total_written(
                if old(self)@.total_written == u64::MAX {
                    0
                } else {
                    (old(self)@.total_written + 1) as u64
                },
            ),
    {
        self.total_written = self.total_written.wrapping_add(1);
    }

    /// Participating reader cursors.
    pub fn num_readers(&self) -> (r: usize)
        ensures
            r == self@.num_readers,
    {
        self.num_readers as usize
    }

    /// The header as the bytes that open the file, its words in `order`.
    pub fn to_bytes(&self, order: ByteOrder) -> (out: Vec<u8>)
        ensures
            out@.len() == HEADER_SIZE,
            decoded(out@, order) == self@,
            forall|i: int| is_padding(i) ==> #[trigger] out@[i] == 0,
    {
        let mut out: Vec<u8> = Vec::new();
        append_u64(&mut out, self.magic, order);
        let ghost b0 = out@;
        append_u32(&mut out, self.version, order);
        let ghost b1 = out@;
        append_u32(&mut out, self.num_readers, order);
        let ghost b2 = out@;
        append_zeros(&mut out, 8);
        let ghost padded = out@;
        append_u64(&mut out, self.write_idx, order);
        let ghost b3 = out@;
        let mut i: usize = 0;
        while i < MAX_READERS
            invariant
                i <= MAX_READERS,
                b3.len() == READ_INDICES_OFFSET,
                out@.len() == READ_INDICES_OFFSET + 8 * i,
                forall|k: int| 0 <= k < b3.len() ==> out@[k] == b3[k],
                forall|k: int|
                    0 <= k < i ==> #[trigger] u64_at(out@, READ_INDICES_OFFSET + 8 * k, order)
                        == self.read_indices@[k],
            decreases MAX_READERS - i,
        {
            let ghost before = out@;
            append_u64(&mut out, self.read_indices[i], order);
            proof {
                lemma_prefix_words(before, out@, before.len() as int, order);
                assert forall|k: int| 0 <= k < i + 1 implies #[trigger] u64_at(
                    out@,
                    READ_INDICES_OFFSET + 8 * k,
                    order,
                ) == self.read_indices@[k] by {
                    if k < i {
                        assert(u64_at(before, READ_INDICES_OFFSET + 8 * k, order)
                            == self.read_indices@[k]);
                    }
                }
            }
            i += 1;
        }
        let ghost b4 = out@;
        append_u64(&mut out, self.capacity_mask, order);
        let ghost b5 = out@;
        append_u64(&mut out, self.total_written, order);
        let ghost b6 = out@;
        append_zeros(&mut out, HEADER_SIZE - 112);
        proof {
            assert forall|k: int| 0 <= k < 112 implies out@[k] == b6[k] by {}
            assert forall|k: int| 0 <= k < 104 implies out@[k] == b5[k] by {}
            assert forall|k: int| 0 <= k < 96 implies out@[k] == b4[k] by {}
            assert forall|k: int| 0 <= k < 32 implies out@[k] == b3[k] by {}
            assert forall|k: int| 0 <= k < 16 implies out@[k] == b2[k] by {
                assert(b3[k] == padded[k]);
            }
            assert forall|i: int| is_padding(i) implies #[trigger] out@[i] == 0 by {
                if i < 32 {
                    assert(out@[i] == b3[i] == padded[i]);
                } else {
                    assert(out@[i] == (b6 + Seq::new(144, |i: int| 0u8))[i]);
                }
            }
            assert forall|k: int| 0 <= k < 12 implies out@[k] == b1[k] by {}
            assert forall|k: int| 0 <= k < 8 implies out@[k] == b0[k] by {}
            lemma_prefix_words(b0, out@, 8, order);
            lemma_prefix_words(b1, out@, 12, order);
            lemma_prefix_words(b2, out@, 16, order);
            lemma_prefix_words(b3, out@, 32, order);
            lemma_prefix_words(b4, out@, 96, order);
            lemma_prefix_words(b5, out@, 104, order);
            lemma_prefix_words(b6, out@, 112, order);
            let d = decoded(out@, order);
            assert forall|k: int| 0 <= k < MAX_READERS implies d.read_indices[k]
                == self.read_indices@[k] by {
                assert(u64_at(b4, READ_INDICES_OFFSET + 8 * k, order) == self.read_indices@[k]);
            }
            assert(d =~= self@);
        }
        out
    }

    /// The header that `bytes` begins with, its words in `order`.
    pub fn from_bytes(bytes: &[u8], order: ByteOrder) -> (r: Self)
        requires
            bytes@.len() >= HEADER_SIZE,
        ensures
            r@ == decoded(bytes@, order),
    {
        let mut read_indices: [u64; MAX_READERS] = [0; MAX_READERS];
        let mut i: usize = 0;
        while i < MAX_READERS
            invariant
                i <= MAX_READERS,
                bytes@.len() >= HEADER_SIZE,
                forall|k: int|
                    0 <= k < i ==> #[trigger] read_indices@[k] == u64_at(
                        bytes@,
                        READ_INDICES_OFFSET + 8 * k,
                        order,
                    ),
            decreases MAX_READERS - i,
        {
            read_indices[i] = read_u64(bytes, READ_INDICES_OFFSET + 8 * i, order);
            i += 1;
        }
        let r = RingHeader {
            magic: read_u64(bytes, MAGIC_OFFSET, order),
            version: read_u32(bytes, VERSION_OFFSET, order),
            num_readers: read_u32(bytes, NUM_READERS_OFFSET, order),
            write_idx: read_u64(bytes, WRITE_IDX_OFFSET, order),
            read_indices,
            capacity_mask: read_u64(bytes, CAPACITY_MASK_OFFSET, order),
            total_written: read_u64(bytes, TOTAL_WRITTEN_OFFSET, order),
        };
        assert(r@ =~= decoded(bytes@, order));
        r
    }
}

} // verus!
