//! What creating, opening and decoding a file promise, over its bytes and
//! words.
//!
//! As in [`crate::ring_laws`], the premises are calls and their results.

use vstd::arithmetic::power2::*;
use vstd::prelude::*;

use crate::error::ShmRingError;
use crate::header::{ByteOrder, RingHeader};
use crate::loan::Loan;
use crate::ring::{
    check_header_floor, plan_create, plan_open, ring_len, CreatePlan, RingMemory, SpmcRingBuffer,
};

verus! {

// ---------------------------------------------------------------------------
// The header's words
// ---------------------------------------------------------------------------

/// Every accessor reads its own word.
pub proof fn law_accessors_read_their_word(
    h: &RingHeader,
    i: usize,
    write_idx: u64,
    read_idx: u64,
    mask: u64,
    total: u64,
    readers: usize,
)
    requires
        call_ensures(RingHeader::write_idx, (h,), write_idx),
        call_ensures(RingHeader::read_idx, (h, i), read_idx),
        call_ensures(RingHeader::capacity_mask, (h,), mask),
        call_ensures(RingHeader::total_written, (h,), total),
        call_ensures(RingHeader::num_readers, (h,), readers),
        i < 8,
    ensures
        write_idx == h.write_idx,
        read_idx == h.read_indices[i as int],
        mask == h.capacity_mask,
        total == h.total_written,
        readers == h.num_readers,
        call_requires(RingHeader::read_idx, (h, i)),
{
}

/// Every mutator writes its own word and no other.
pub proof fn law_mutators_write_their_word(
    a: &mut RingHeader,
    b: &mut RingHeader,
    c: &mut RingHeader,
    d: &mut RingHeader,
    i: usize,
    v: u64,
)
    requires
        call_ensures(RingHeader::set_write_idx, (a, v), ()),
        call_ensures(RingHeader::set_read_idx, (b, i, v), ()),
        call_ensures(RingHeader::set_total_written, (c, v), ()),
        call_ensures(RingHeader::bump_total_written, (d,), ()),
        i < 8,
    ensures
        final(a).write_idx == v,
        final(a).total_written == old(a).total_written,
        final(a).read_indices@ == old(a).read_indices@,
        final(a).num_readers == old(a).num_readers,
        final(a).capacity_mask == old(a).capacity_mask,
        final(a).magic == old(a).magic,
        final(a).version == old(a).version,
        final(b).read_indices[i as int] == v,
        forall|k: int|
            0 <= k < 8 && k != i ==> #[trigger] final(b).read_indices[k] == old(b).read_indices[k],
        final(b).write_idx == old(b).write_idx,
        final(b).total_written == old(b).total_written,
        final(b).num_readers == old(b).num_readers,
        final(b).capacity_mask == old(b).capacity_mask,
        final(b).magic == old(b).magic,
        final(b).version == old(b).version,
        final(c).total_written == v,
        final(c).write_idx == old(c).write_idx,
        final(c).read_indices@ == old(c).read_indices@,
        final(c).num_readers == old(c).num_readers,
        final(c).capacity_mask == old(c).capacity_mask,
        final(c).magic == old(c).magic,
        final(c).version == old(c).version,
        final(d).total_written == (old(d).total_written + 1) % 0x1_0000_0000_0000_0000,
        final(d).write_idx == old(d).write_idx,
        final(d).read_indices@ == old(d).read_indices@,
        final(d).num_readers == old(d).num_readers,
        final(d).capacity_mask == old(d).capacity_mask,
        final(d).magic == old(d).magic,
        final(d).version == old(d).version,
        call_requires(RingHeader::set_read_idx, (b, i, v)),
{
    assert(final(a)@.read_indices == final(a).read_indices@);
    assert(final(b)@.read_indices == final(b).read_indices@);
    assert(final(c)@.read_indices == final(c).read_indices@);
    assert(final(d)@.read_indices == final(d).read_indices@);
    assert(final(a)@.write_idx == final(a).write_idx);
    assert(final(b)@.write_idx == final(b).write_idx);
    assert(final(c)@.write_idx == final(c).write_idx);
    assert(final(d)@.write_idx == final(d).write_idx);
    if old(d).total_written < u64::MAX {
        vstd::arithmetic::div_mod::lemma_small_mod(
            (old(d).total_written + 1) as nat,
            0x1_0000_0000_0000_0000,
        );
    }
}

/// The slowest cursor is the least of those that take part, and the greatest
/// number there is where none does.
pub proof fn law_slowest_read_idx(h: &RingHeader, num_readers: usize, r: u64)
    requires
        call_ensures(RingHeader::slowest_read_idx, (h, num_readers), r),
        num_readers <= 8,
    ensures
        num_readers == 0 ==> r == u64::MAX,
        num_readers > 0 ==> exists|j: int|
            0 <= j < num_readers && r == #[trigger] h.read_indices[j],
        forall|k: int| 0 <= k < num_readers ==> r <= #[trigger] h.read_indices[k],
        call_requires(RingHeader::slowest_read_idx, (h, num_readers)),
{
    let cursors = h@.read_indices.take(num_readers as int);
    crate::header::lemma_slowest(cursors);
    if num_readers > 0 {
        let j = choose|j: int|
            0 <= j < cursors.len() && #[trigger] cursors[j] == crate::header::slowest(cursors);
        assert(cursors[j] == h.read_indices[j]);
        assert forall|k: int| 0 <= k < num_readers implies r <= #[trigger] h.read_indices[k] by {
            assert(cursors[k] == h.read_indices[k]);
        }
    }
}

/// A new header carries the identity, the mask and the number of readers it
/// was given, and every counter is at zero.
pub proof fn law_new_header(capacity_mask: u64, num_readers: usize, h: RingHeader)
    requires
        call_ensures(RingHeader::new, (capacity_mask, num_readers), h),
        1 <= num_readers <= 8,
    ensures
        h.magic == 0x5249_4E47_5350_4D43,
        h.version == 1,
        h.num_readers == num_readers,
        h.capacity_mask == capacity_mask,
        h.write_idx == 0,
        h.total_written == 0,
        forall|k: int| 0 <= k < 8 ==> #[trigger] h.read_indices[k] == 0,
        call_requires(RingHeader::new, (capacity_mask, num_readers)),
{
    assert(h@.read_indices == h.read_indices@);
    assert(h@.magic == h.magic);
}

/// A header passes exactly when its magic, its version and its mask are right.
/// The counters have no say: a ring in use passes like a fresh one. Else the
/// first of these that is wrong is reported.
pub proof fn law_header_check(h: &RingHeader, r: Result<(), ShmRingError>)
    requires
        call_ensures(RingHeader::validate, (h,), r),
    ensures
        r is Ok <==> {
            &&& h.magic == 0x5249_4E47_5350_4D43
            &&& h.version == 1
            &&& h.capacity_mask < u64::MAX
            &&& is_pow2(h.capacity_mask + 1)
        },
        h.magic != 0x5249_4E47_5350_4D43 ==> {
            &&& r matches Err(ShmRingError::HeaderCorruption { field, expected, got })
            &&& field@ == "magic"@
            &&& expected == 0x5249_4E47_5350_4D43
            &&& got == h.magic
        },
        h.magic == 0x5249_4E47_5350_4D43 && h.version != 1 ==> {
            &&& r matches Err(ShmRingError::VersionMismatch { expected, got })
            &&& expected == 1
            &&& got == h.version
        },
        h.magic == 0x5249_4E47_5350_4D43 && h.version == 1 && !(h.capacity_mask < u64::MAX
            && is_pow2(h.capacity_mask + 1)) ==> {
            &&& r matches Err(ShmRingError::HeaderCorruption { field, expected, got })
            &&& field@ == "capacity_mask"@
            &&& expected == 0
            &&& got == h.capacity_mask
        },
{
}

// ---------------------------------------------------------------------------
// The header's bytes
// ---------------------------------------------------------------------------

/// The number whose digits to the base 256 are `digits`, least first.
pub open spec fn number(digits: Seq<u8>) -> int
    decreases digits.len(),
{
    if digits.len() == 0 {
        0
    } else {
        digits[0] + 256 * number(digits.drop_first())
    }
}

/// Eight digits, written out.
proof fn lemma_number_of_eight(d: Seq<u8>)
    requires
        d.len() == 8,
    ensures
        number(d) == d[0] + 0x100 * d[1] + 0x1_0000 * d[2] + 0x100_0000 * d[3] + 0x1_0000_0000
            * d[4] + 0x100_0000_0000 * d[5] + 0x1_0000_0000_0000 * d[6] + 0x100_0000_0000_0000
            * d[7],
{
    reveal_with_fuel(number, 9);
    let d1 = d.drop_first();
    let d2 = d1.drop_first();
    let d3 = d2.drop_first();
    let d4 = d3.drop_first();
    let d5 = d4.drop_first();
    let d6 = d5.drop_first();
    let d7 = d6.drop_first();
    assert(d1[0] == d[1] && d2[0] == d[2] && d3[0] == d[3] && d4[0] == d[4] && d5[0] == d[5]
        && d6[0] == d[6] && d7[0] == d[7]);
    assert(d7.drop_first().len() == 0);
}

/// A `u64` is the number that its bytes are the digits of.
proof fn lemma_u64_is_its_digits(d: Seq<u8>)
    requires
        d.len() == 8,
    ensures
        vstd::bytes::spec_u64_from_le_bytes(d) == number(d),
{
    let x = vstd::bytes::spec_u64_from_le_bytes(d);
    vstd::bytes::lemma_auto_spec_u64_to_from_le_bytes();
    vstd::bytes::spec_u64_to_le_bytes_to_open(x);
    let e = vstd::bytes::spec_u64_to_le_bytes_open(x);
    assert(e == d);
    lemma_number_of_eight(d);
    let (a, b, c, f) = (d[0], d[1], d[2], d[3]);
    let (g, h, i, j) = (d[4], d[5], d[6], d[7]);
    assert(a == (x & 0xff) as u8 && b == ((x >> 8) & 0xff) as u8 && c == ((x >> 16) & 0xff) as u8
        && f == ((x >> 24) & 0xff) as u8 && g == ((x >> 32) & 0xff) as u8 && h == ((x >> 40)
        & 0xff) as u8 && i == ((x >> 48) & 0xff) as u8 && j == ((x >> 56) & 0xff) as u8) by {
        assert(e[0] == d[0] && e[1] == d[1] && e[2] == d[2] && e[3] == d[3]);
        assert(e[4] == d[4] && e[5] == d[5] && e[6] == d[6] && e[7] == d[7]);
    }
    assert(x == a + 0x100 * b + 0x1_0000 * c + 0x100_0000 * f + 0x1_0000_0000 * g
        + 0x100_0000_0000 * h + 0x1_0000_0000_0000 * i + 0x100_0000_0000_0000 * j)
        by (bit_vector)
        requires
            a == (x & 0xff) as u8,
            b == ((x >> 8) & 0xff) as u8,
            c == ((x >> 16) & 0xff) as u8,
            f == ((x >> 24) & 0xff) as u8,
            g == ((x >> 32) & 0xff) as u8,
            h == ((x >> 40) & 0xff) as u8,
            i == ((x >> 48) & 0xff) as u8,
            j == ((x >> 56) & 0xff) as u8,
    ;
}

/// The words that lie in `bytes` are numbers by their digits, in the order of
/// the digits that is asked for.
pub proof fn lemma_words_are_numbers(bytes: Seq<u8>, offset: int)
    requires
        0 <= offset,
        offset + 8 <= bytes.len(),
    ensures
        ({
            let d = bytes.subrange(offset, offset + 8);
            &&& crate::header::u64_at(bytes, offset, ByteOrder::Little) == number(d)
            &&& crate::header::u64_at(bytes, offset, ByteOrder::Big) == number(d.reverse())
        }),
{
    let d = bytes.subrange(offset, offset + 8);
    lemma_u64_is_its_digits(d);
    lemma_u64_is_its_digits(d.reverse());
}

/// Each word of a decoded header is the number stored at its place in the
/// file, least significant byte first in one byte order, last in the other.
pub proof fn law_decoded_words(bytes: &[u8], little: RingHeader, big: RingHeader)
    requires
        call_ensures(RingHeader::from_bytes, (bytes, ByteOrder::Little), little),
        call_ensures(RingHeader::from_bytes, (bytes, ByteOrder::Big), big),
        bytes@.len() >= 256,
    ensures
        little.magic == number(bytes@.subrange(0, 8)),
        little.version == vstd::bytes::spec_u32_from_le_bytes(bytes@.subrange(8, 12)),
        little.num_readers == vstd::bytes::spec_u32_from_le_bytes(bytes@.subrange(12, 16)),
        little.write_idx == number(bytes@.subrange(24, 32)),
        forall|i: int|
            0 <= i < 8 ==> #[trigger] little.read_indices[i] == number(
                bytes@.subrange(32 + 8 * i, 40 + 8 * i),
            ),
        little.capacity_mask == number(bytes@.subrange(96, 104)),
        little.total_written == number(bytes@.subrange(104, 112)),
        big.magic == number(bytes@.subrange(0, 8).reverse()),
        big.version == vstd::bytes::spec_u32_from_le_bytes(
            bytes@.subrange(8, 12).reverse(),
        ),
        big.num_readers == vstd::bytes::spec_u32_from_le_bytes(
            bytes@.subrange(12, 16).reverse(),
        ),
        big.write_idx == number(bytes@.subrange(24, 32).reverse()),
        forall|i: int|
            0 <= i < 8 ==> #[trigger] big.read_indices[i] == number(
                bytes@.subrange(32 + 8 * i, 40 + 8 * i).reverse(),
            ),
        big.capacity_mask == number(bytes@.subrange(96, 104).reverse()),
        big.total_written == number(bytes@.subrange(104, 112).reverse()),
        call_requires(RingHeader::from_bytes, (bytes, ByteOrder::Little)),
        call_requires(RingHeader::from_bytes, (bytes, ByteOrder::Big)),
{
    lemma_words_are_numbers(bytes@, 0);
    lemma_words_are_numbers(bytes@, 24);
    lemma_words_are_numbers(bytes@, 96);
    lemma_words_are_numbers(bytes@, 104);
    assert(little@.read_indices == little.read_indices@);
    assert(big@.read_indices == big.read_indices@);
    assert(little@.magic == little.magic && big@.magic == big.magic);
    assert forall|i: int| 0 <= i < 8 implies #[trigger] little.read_indices[i] == number(
        bytes@.subrange(32 + 8 * i, 40 + 8 * i),
    ) by {
        lemma_words_are_numbers(bytes@, 32 + 8 * i);
        assert(little@.read_indices[i] == crate::header::u64_at(
            bytes@,
            32 + 8 * i,
            ByteOrder::Little,
        ));
    }
    assert forall|i: int| 0 <= i < 8 implies #[trigger] big.read_indices[i] == number(
        bytes@.subrange(32 + 8 * i, 40 + 8 * i).reverse(),
    ) by {
        lemma_words_are_numbers(bytes@, 32 + 8 * i);
        assert(big@.read_indices[i] == crate::header::u64_at(bytes@, 32 + 8 * i, ByteOrder::Big));
    }
}

/// What was encoded is what is decoded, in either byte order; the encoding has
/// 256 bytes, and those that belong to no word are zero.
pub proof fn law_encoded_header_decodes(
    h: &RingHeader,
    order: ByteOrder,
    out: Vec<u8>,
    bytes: &[u8],
    back: RingHeader,
)
    requires
        call_ensures(RingHeader::to_bytes, (h, order), out),
        bytes@ == out@,
        call_ensures(RingHeader::from_bytes, (bytes, order), back),
    ensures
        out@.len() == 256,
        forall|i: int| 16 <= i < 24 || 112 <= i < 256 ==> #[trigger] out@[i] == 0,
        back.magic == h.magic,
        back.version == h.version,
        back.num_readers == h.num_readers,
        back.write_idx == h.write_idx,
        back.read_indices@ == h.read_indices@,
        back.capacity_mask == h.capacity_mask,
        back.total_written == h.total_written,
        call_requires(RingHeader::to_bytes, (h, order)),
{
    assert(back@.read_indices == back.read_indices@);
    assert(back@.magic == back.magic);
    assert forall|i: int| 16 <= i < 24 || 112 <= i < 256 implies #[trigger] out@[i] == 0 by {
        assert(crate::header::is_padding(i));
    }
}

// ---------------------------------------------------------------------------
// Creating
// ---------------------------------------------------------------------------

/// The length of a ring file is 256 bytes for the header and the slots' own
/// bytes; there is one exactly where a `u64` counts it.
pub proof fn law_ring_len(capacity: u64, slot_size: u64, r: Option<u64>)
    requires
        call_ensures(ring_len, (capacity, slot_size), r),
    ensures
        256 + capacity * slot_size <= u64::MAX ==> {
            &&& r matches Some(len)
            &&& len == 256 + capacity * slot_size
        },
        256 + capacity * slot_size > u64::MAX ==> r is None,
{
}

/// A ring can be created at a free path whenever its capacity is a power of
/// two and a `u64` counts its bytes, 256 for the header and those of the
/// slots. The file gets exactly these bytes and the header what was asked for.
/// Else the capacity is refused first, then the path, then the size.
pub proof fn law_creation_plan<T>(
    exists: bool,
    capacity: usize,
    num_readers: usize,
    r: Result<CreatePlan, ShmRingError>,
)
    requires
        call_ensures(plan_create::<T>, (exists, capacity, num_readers), r),
        1 <= num_readers <= 8,
    ensures
        ({
            let bytes = 256 + capacity * vstd::layout::size_of::<T>();
            let pow2 = is_pow2(capacity as int);
            &&& r is Ok <==> pow2 && !exists && bytes <= u64::MAX
            &&& r matches Ok(plan) ==> {
                &&& plan.file_len == bytes
                &&& plan.header.magic == 0x5249_4E47_5350_4D43
                &&& plan.header.version == 1
                &&& plan.header.num_readers == num_readers
                &&& plan.header.capacity_mask == capacity - 1
                &&& plan.header.write_idx == 0
                &&& plan.header.total_written == 0
                &&& forall|k: int| 0 <= k < 8 ==> #[trigger] plan.header.read_indices[k] == 0
            }
            &&& !pow2 ==> (r matches Err(ShmRingError::InvalidCapacity { got }) && got == capacity)
            &&& pow2 && exists ==> r is Err && r->Err_0 is AlreadyExists
            &&& pow2 && !exists && bytes > u64::MAX ==> {
                &&& r matches Err(ShmRingError::FileTooShort { expected, got })
                &&& expected == u64::MAX
                &&& got == 0
            }
        }),
        vstd::layout::align_of::<T>() <= 64 ==> call_requires(
            plan_create::<T>,
            (exists, capacity, num_readers),
        ),
        !is_pow2(capacity as int) ==> call_requires(
            plan_create::<T>,
            (exists, capacity, num_readers),
        ),
{
    if let Ok(plan) = r {
        assert(plan.header@.read_indices == plan.header.read_indices@);
        assert(plan.header@.magic == plan.header.magic);
        assert(capacity >= 1) by {
            reveal(is_pow2);
        }
    }
}

/// Creation succeeds under the same conditions, and gives a ring on which
/// nothing was published or consumed, with as many blank slots as asked for
/// and a handle that holds no loans.
pub proof fn law_creation<T: Copy>(
    path: String,
    exists: bool,
    capacity: usize,
    num_readers: usize,
    blank: T,
    r: Result<(SpmcRingBuffer<T>, RingMemory<T>), ShmRingError>,
)
    requires
        call_ensures(
            SpmcRingBuffer::<T>::create_new_with_readers,
            (path, exists, capacity, num_readers, blank),
            r,
        ),
        1 <= num_readers <= 8,
    ensures
        ({
            let bytes = 256 + capacity * vstd::layout::size_of::<T>();
            let pow2 = is_pow2(capacity as int);
            &&& r is Ok <==> pow2 && !exists && bytes <= u64::MAX
            &&& r matches Ok((ring, mem)) ==> {
                &&& mem.header.magic == 0x5249_4E47_5350_4D43
                &&& mem.header.version == 1
                &&& mem.header.num_readers == num_readers
                &&& mem.header.capacity_mask == capacity - 1
                &&& mem.header.write_idx == 0
                &&& mem.header.total_written == 0
                &&& forall|k: int| 0 <= k < 8 ==> #[trigger] mem.header.read_indices[k] == 0
                &&& mem.slots@.len() == capacity
                &&& forall|k: int| 0 <= k < capacity ==> #[trigger] mem.slots@[k] == blank
                &&& ring@.capacity == capacity
                &&& ring@.path == path@
                &&& ring@.claim_base.len() == 8
                &&& ring@.loan_depth.len() == 8
                &&& forall|k: int| 0 <= k < 8 ==> #[trigger] ring@.claim_base[k] == 0
                &&& forall|k: int| 0 <= k < 8 ==> #[trigger] ring@.loan_depth[k] == 0
            }
            &&& !pow2 ==> (r matches Err(ShmRingError::InvalidCapacity { got }) && got == capacity)
            &&& pow2 && exists ==> r is Err && r->Err_0 is AlreadyExists
            &&& pow2 && !exists && bytes > u64::MAX ==> {
                &&& r matches Err(ShmRingError::FileTooShort { expected, got })
                &&& expected == u64::MAX
                &&& got == 0
            }
        }),
        vstd::layout::align_of::<T>() <= 64 ==> call_requires(
            SpmcRingBuffer::<T>::create_new_with_readers,
            (path, exists, capacity, num_readers, blank),
        ),
        !is_pow2(capacity as int) ==> call_requires(
            SpmcRingBuffer::<T>::create_new_with_readers,
            (path, exists, capacity, num_readers, blank),
        ),
{
    if let Ok((ring, mem)) = r {
        assert(mem@.header.read_indices == mem.header.read_indices@);
        assert(mem@.header.magic == mem.header.magic);
        assert(mem@.slots == mem.slots@);
        assert(capacity >= 1) by {
            reveal(is_pow2);
        }
    }
}

/// Creation without a number of readers is creation with all eight.
pub proof fn law_creation_with_all_readers<T: Copy>(
    path: String,
    exists: bool,
    capacity: usize,
    blank: T,
    r: Result<(SpmcRingBuffer<T>, RingMemory<T>), ShmRingError>,
    s: Result<(SpmcRingBuffer<T>, RingMemory<T>), ShmRingError>,
)
    requires
        call_ensures(SpmcRingBuffer::<T>::create_new, (path, exists, capacity, blank), r),
        call_ensures(
            SpmcRingBuffer::<T>::create_new_with_readers,
            (path, exists, capacity, 8, blank),
            s,
        ),
    ensures
        r is Ok <==> s is Ok,
        r matches Ok((ring, mem)) ==> s matches Ok((other, twin)) && ring@ == other@ && mem@
            == twin@ && mem.header.num_readers == 8,
        r matches Err(ShmRingError::InvalidCapacity { got }) ==> s matches Err(
            ShmRingError::InvalidCapacity { got: other },
        ) && got == other,
        r matches Err(ShmRingError::AlreadyExists) ==> s matches Err(ShmRingError::AlreadyExists),
        r matches Err(ShmRingError::FileTooShort { expected, got }) ==> s matches Err(
            ShmRingError::FileTooShort { expected: a, got: b },
        ) && expected == a && got == b,
        vstd::layout::align_of::<T>() <= 64 ==> call_requires(
            SpmcRingBuffer::<T>::create_new,
            (path, exists, capacity, blank),
        ),
{
    law_creation(path, exists, capacity, 8, blank, s);
    if let Ok((ring, mem)) = r {
        if let Ok((other, twin)) = s {
            assert(mem@.header =~= twin@.header);
            assert(mem@.slots =~= twin@.slots);
        }
    }
}

// ---------------------------------------------------------------------------
// Opening
// ---------------------------------------------------------------------------

/// A file shorter than a header is refused before anything is read of it.
pub proof fn law_header_floor(file_len: u64, r: Result<(), ShmRingError>)
    requires
        call_ensures(check_header_floor, (file_len,), r),
    ensures
        r is Ok <==> file_len >= 256,
        file_len < 256 ==> (r matches Err(ShmRingError::FileTooShort { expected, got }) && expected
            == 256 && got == file_len),
{
}

/// A file opens exactly when its header passes and it is long enough for the
/// header and the slots that the mask implies; the capacity is the mask plus
/// one. A file too short is told how long it would have to be.
pub proof fn law_opening_plan<T>(
    file_len: u64,
    h: &RingHeader,
    checked: Result<(), ShmRingError>,
    r: Result<u64, ShmRingError>,
)
    requires
        call_ensures(RingHeader::validate, (h,), checked),
        call_ensures(plan_open::<T>, (file_len, h), r),
    ensures
        ({
            let bytes = 256 + (h.capacity_mask + 1) * vstd::layout::size_of::<T>();
            &&& r is Ok <==> checked is Ok && bytes <= file_len
            &&& r matches Ok(capacity) ==> capacity == h.capacity_mask + 1
            &&& checked is Ok && bytes > file_len ==> {
                &&& r matches Err(ShmRingError::FileTooShort { expected, got })
                &&& got == file_len
                &&& bytes <= u64::MAX ==> expected == bytes
                &&& bytes > u64::MAX ==> expected == u64::MAX
            }
            &&& checked matches Err(ShmRingError::VersionMismatch { expected, got }) ==> {
                &&& r matches Err(ShmRingError::VersionMismatch { expected: a, got: b })
                &&& a == expected
                &&& b == got
            }
            &&& checked matches Err(ShmRingError::HeaderCorruption { field, expected, got }) ==> {
                &&& r matches Err(ShmRingError::HeaderCorruption { field: f, expected: a, got: b })
                &&& f@ == field@
                &&& a == expected
                &&& b == got
            }
        }),
        vstd::layout::align_of::<T>() <= 64 ==> call_requires(plan_open::<T>, (file_len, h)),
{
    law_header_check(h, checked);
}

/// Opening a ring in memory follows the plan for its file, and gives a handle
/// without loans.
pub proof fn law_opening<T: Copy>(
    path: String,
    mem: &RingMemory<T>,
    r: Result<SpmcRingBuffer<T>, ShmRingError>,
)
    requires
        call_ensures(SpmcRingBuffer::<T>::open_existing, (path, mem), r),
    ensures
        ({
            let h = mem.header;
            let size = vstd::layout::size_of::<T>();
            let fits = (h.capacity_mask + 1) * size <= mem.slots@.len() * size;
            let passes = h.magic == 0x5249_4E47_5350_4D43 && h.version == 1 && h.capacity_mask
                < u64::MAX && is_pow2(h.capacity_mask + 1);
            &&& r is Ok <==> passes && fits
            &&& passes && !fits ==> {
                let bytes = 256 + (h.capacity_mask + 1) * size;
                &&& r matches Err(ShmRingError::FileTooShort { expected, got })
                &&& got == 256 + mem.slots@.len() * size
                &&& bytes <= u64::MAX ==> expected == bytes
                &&& bytes > u64::MAX ==> expected == u64::MAX
            }
            &&& h.magic != 0x5249_4E47_5350_4D43 ==> (r matches Err(
                ShmRingError::HeaderCorruption { field, expected, got },
            ) && field@ == "magic"@ && expected == 0x5249_4E47_5350_4D43 && got == h.magic)
            &&& h.magic == 0x5249_4E47_5350_4D43 && h.version != 1 ==> (r matches Err(
                ShmRingError::VersionMismatch { expected, got },
            ) && expected == 1 && got == h.version)
            &&& h.magic == 0x5249_4E47_5350_4D43 && h.version == 1 && !passes ==> (r matches Err(
                ShmRingError::HeaderCorruption { field, expected, got },
            ) && field@ == "capacity_mask"@ && expected == 0 && got == h.capacity_mask)
            &&& r matches Ok(ring) ==> {
                &&& ring@.capacity == h.capacity_mask + 1
                &&& ring@.path == path@
                &&& ring@.claim_base.len() == 8
                &&& ring@.loan_depth.len() == 8
                &&& forall|k: int| 0 <= k < 8 ==> #[trigger] ring@.claim_base[k] == 0
                &&& forall|k: int| 0 <= k < 8 ==> #[trigger] ring@.loan_depth[k] == 0
            }
        }),
        vstd::layout::align_of::<T>() <= 64 && vstd::layout::size_of::<T>() > 0 && 256
            + mem.slots@.len() * vstd::layout::size_of::<T>() <= u64::MAX ==> call_requires(
            SpmcRingBuffer::<T>::open_existing,
            (path, mem),
        ),
{
}

/// A created ring opens, with the capacity it was created with.
pub proof fn law_created_ring_can_be_opened<T: Copy>(
    path: String,
    exists: bool,
    capacity: usize,
    num_readers: usize,
    blank: T,
    made: (SpmcRingBuffer<T>, RingMemory<T>),
    mem: &RingMemory<T>,
    r: Result<SpmcRingBuffer<T>, ShmRingError>,
)
    requires
        call_ensures(
            SpmcRingBuffer::<T>::create_new_with_readers,
            (path, exists, capacity, num_readers, blank),
            Ok(made),
        ),
        1 <= num_readers <= 8,
        *mem == made.1,
        call_ensures(SpmcRingBuffer::<T>::open_existing, (path, mem), r),
    ensures
        r matches Ok(ring) && ring@ == made.0@,
{
    law_creation(path, exists, capacity, num_readers, blank, Ok(made));
    law_opening(path, mem, r);
    if let Ok(ring) = r {
        assert(ring@.claim_base =~= made.0@.claim_base);
        assert(ring@.loan_depth =~= made.0@.loan_depth);
        assert(ring@ =~= made.0@);
    }
}

/// A ring in use stays open to all: after a push, a pop, a commit or a drop,
/// whatever came of it, the ring opens exactly if it did before, with the same
/// capacity.
pub proof fn law_ring_in_use_can_be_opened<T: Copy>(
    ring: &mut SpmcRingBuffer<T>,
    mem: &mut RingMemory<T>,
    value: &T,
    reader_id: usize,
    loan: &mut Loan,
    dropped: Loan,
    path: String,
    before: &RingMemory<T>,
    after: &RingMemory<T>,
    first: Result<SpmcRingBuffer<T>, ShmRingError>,
    second: Result<SpmcRingBuffer<T>, ShmRingError>,
)
    requires
        ({
            ||| exists|pushed: bool|
                #[trigger] call_ensures(
                    SpmcRingBuffer::<T>::try_push,
                    (ring, mem, value),
                    pushed,
                )
            ||| exists|popped: Result<Option<T>, ShmRingError>|
                #[trigger] call_ensures(
                    SpmcRingBuffer::<T>::try_pop,
                    (ring, mem, reader_id),
                    popped,
                )
            ||| exists|committed: Result<(), ShmRingError>|
                #[trigger] call_ensures(Loan::commit::<T>, (loan, ring, mem), committed)
            ||| call_ensures(Loan::drop::<T>, (dropped, ring, mem), ())
        }),
        *before == *old(mem),
        call_ensures(SpmcRingBuffer::<T>::open_existing, (path, before), first),
        *after == *final(mem),
        call_ensures(SpmcRingBuffer::<T>::open_existing, (path, after), second),
        old(mem).header.capacity_mask < old(mem).slots@.len(),
    ensures
        first is Ok <==> second is Ok,
        first is Ok && second is Ok ==> first->Ok_0@ == second->Ok_0@,
{
    let s = old(mem)@;
    let t = final(mem)@;
    assert(t.header.magic == final(mem).header.magic);
    assert(t.slots == final(mem).slots@);
    vstd::arithmetic::div_mod::lemma_mod_bound(
        s.header.write_idx as int,
        s.header.capacity_mask + 1,
    );
    assert(t.header.magic == s.header.magic && t.header.version == s.header.version
        && t.header.capacity_mask == s.header.capacity_mask && t.slots.len() == s.slots.len());
    law_opening(path, before, first);
    law_opening(path, after, second);
    if first is Ok && second is Ok {
        assert(first->Ok_0@.claim_base =~= second->Ok_0@.claim_base);
        assert(first->Ok_0@.loan_depth =~= second->Ok_0@.loan_depth);
        assert(first->Ok_0@ =~= second->Ok_0@);
    }
}

/// A handle knows the capacity and the path that it was created or opened
/// with, and a memory the length of its file.
pub proof fn law_handle_knows_its_ring<T: Copy>(
    path: String,
    exists: bool,
    capacity: usize,
    num_readers: usize,
    blank: T,
    made: (SpmcRingBuffer<T>, RingMemory<T>),
    created: &SpmcRingBuffer<T>,
    mem: &RingMemory<T>,
    opened: SpmcRingBuffer<T>,
    other: &SpmcRingBuffer<T>,
    a: usize,
    b: usize,
    p: &str,
    q: &str,
    len: u64,
)
    requires
        call_ensures(
            SpmcRingBuffer::<T>::create_new_with_readers,
            (path, exists, capacity, num_readers, blank),
            Ok(made),
        ),
        1 <= num_readers <= 8,
        *created == made.0,
        *mem == made.1,
        call_ensures(SpmcRingBuffer::<T>::open_existing, (path, mem), Ok(opened)),
        *other == opened,
        call_ensures(SpmcRingBuffer::<T>::capacity, (created,), a),
        call_ensures(SpmcRingBuffer::<T>::capacity, (other,), b),
        call_ensures(SpmcRingBuffer::<T>::path, (created,), p),
        call_ensures(SpmcRingBuffer::<T>::path, (other,), q),
        call_ensures(RingMemory::<T>::file_len, (mem,), len),
    ensures
        a == capacity,
        b == capacity,
        p@ == path@,
        q@ == path@,
        len == 256 + capacity * vstd::layout::size_of::<T>(),
        call_requires(RingMemory::<T>::file_len, (mem,)),
{
    law_creation(path, exists, capacity, num_readers, blank, Ok(made));
    law_opening(path, mem, Ok(opened));
}

} // verus!
