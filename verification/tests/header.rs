//! Tests of the control block.

use shm_rings::header::ByteOrder;
use shm_rings::ring::{
    available, check_reader, next_slot, slot_index, slot_offset, slowest_lag_of,
};
use shm_rings::{RingHeader, ShmRingError, HEADER_SIZE, MAGIC, MAX_READERS, VERSION};

#[test]
fn fresh_header_is_valid_and_zeroed() {
    let h = RingHeader::new(7, 2);
    assert!(h.validate().is_ok());
    assert_eq!(h.capacity_mask(), 7);
    assert_eq!(h.num_readers(), 2);
    assert_eq!(h.write_idx(), 0);
    assert_eq!(h.total_written(), 0);
    for i in 0..MAX_READERS {
        assert_eq!(h.read_idx(i), 0);
    }
}

#[test]
fn counters_store_what_they_are_given() {
    let mut h = RingHeader::new(7, 2);
    h.set_write_idx(9);
    h.set_read_idx(1, 4);
    h.bump_total_written();
    h.bump_total_written();
    assert_eq!(h.write_idx(), 9);
    assert_eq!(h.read_idx(0), 0);
    assert_eq!(h.read_idx(1), 4);
    assert_eq!(h.total_written(), 2);
    h.set_total_written(u64::MAX);
    h.bump_total_written();
    assert_eq!(h.total_written(), 0);
}

#[test]
fn slowest_cursor_counts_participants_only() {
    let mut h = RingHeader::new(7, 3);
    h.set_read_idx(0, 5);
    h.set_read_idx(1, 3);
    h.set_read_idx(2, 8);
    assert_eq!(h.slowest_read_idx(3), 3);
    assert_eq!(h.slowest_read_idx(1), 5);
    assert_eq!(h.slowest_read_idx(4), 0);
    assert_eq!(h.slowest_read_idx(0), u64::MAX);
}

#[test]
fn masks_that_are_not_a_power_of_two_less_one_are_corrupt() {
    for bad in [2u64, 4, 5, 6, 8, 1000, u64::MAX] {
        match RingHeader::new(bad, 1).validate() {
            Err(ShmRingError::HeaderCorruption {
                field,
                expected,
                got,
            }) => {
                assert_eq!(field, "capacity_mask");
                assert_eq!(expected, 0);
                assert_eq!(got, bad);
            }
            _ => panic!("mask {bad} must be refused"),
        }
    }
    for good in [0u64, 1, 3, 7, 1023, (1 << 40) - 1, (1 << 63) - 1] {
        assert!(RingHeader::new(good, 1).validate().is_ok());
    }
}

#[test]
fn magic_is_judged_before_version_and_version_before_mask() {
    let mut h = RingHeader::new(2, 1);
    h.magic = 1;
    h.version = 99;
    assert!(matches!(
        h.validate(),
        Err(ShmRingError::HeaderCorruption {
            field: "magic",
            got: 1,
            ..
        })
    ));
    h.magic = MAGIC;
    assert!(matches!(
        h.validate(),
        Err(ShmRingError::VersionMismatch { got: 99, .. })
    ));
    h.version = VERSION;
    assert!(matches!(
        h.validate(),
        Err(ShmRingError::HeaderCorruption {
            field: "capacity_mask",
            ..
        })
    ));
}

#[test]
fn layout_is_fixed() {
    let mut h = RingHeader::new(7, 2);
    h.set_write_idx(0x0102_0304_0506_0708);
    h.set_read_idx(0, 11);
    h.set_read_idx(7, 17);
    h.set_total_written(23);
    let bytes = h.to_bytes(ByteOrder::Little);
    assert_eq!(bytes.len(), HEADER_SIZE);
    assert_eq!(&bytes[0..8], &MAGIC.to_le_bytes()[..]);
    assert_eq!(&bytes[8..12], &VERSION.to_le_bytes()[..]);
    let back = RingHeader::from_bytes(&bytes, ByteOrder::Little);
    assert_eq!(back.write_idx(), 0x0102_0304_0506_0708);
    assert_eq!(back.read_idx(0), 11);
    assert_eq!(back.read_idx(7), 17);
    assert_eq!(back.capacity_mask(), 7);
    assert_eq!(back.total_written(), 23);
    assert_eq!(back.num_readers(), 2);
    assert_eq!(back.to_bytes(ByteOrder::Little), bytes);
}

#[test]
fn words_are_stored_in_the_order_given() {
    let mut h = RingHeader::new(7, 2);
    h.set_write_idx(0x0102_0304_0506_0708);
    let bytes = h.to_bytes(ByteOrder::Big);
    assert_eq!(&bytes[0..8], b"RINGSPMC");
    assert_eq!(&bytes[8..12], &[0, 0, 0, 1]);
    assert_eq!(&bytes[12..16], &[0, 0, 0, 2]);
    assert_eq!(&bytes[24..32], &[1, 2, 3, 4, 5, 6, 7, 8]);
    let back = RingHeader::from_bytes(&bytes, ByteOrder::Big);
    assert!(back.validate().is_ok());
    assert_eq!(back.write_idx(), 0x0102_0304_0506_0708);
    assert_eq!(back.num_readers(), 2);
    // Read in the other order it is no ring.
    let swapped = RingHeader::from_bytes(&bytes, ByteOrder::Little);
    assert!(matches!(
        swapped.validate(),
        Err(ShmRingError::HeaderCorruption { field: "magic", .. })
    ));
}

#[test]
fn damaged_reader_counts_are_refused_or_ignored() {
    // Nobody participates: every reader is refused.
    assert!(matches!(
        check_reader(0, 0),
        Err(ShmRingError::InvalidReaderId { id: 0, max: 0 })
    ));
    let mut h = RingHeader::new(3, 1);
    h.num_readers = 0;
    h.set_write_idx(2);
    assert!(matches!(
        available(&h, 0),
        Err(ShmRingError::InvalidReaderId { id: 0, max: 0 })
    ));
    assert!(matches!(
        next_slot(&h, 4, 3),
        Err(ShmRingError::InvalidReaderId { id: 3, max: 0 })
    ));
    // More participants than cursors: a reader with a cursor still has it.
    h.num_readers = 100;
    assert_eq!(available(&h, 7).unwrap(), 2);
    assert_eq!(next_slot(&h, 4, 7).unwrap(), Some(0));
    assert!(matches!(
        available(&h, 100),
        Err(ShmRingError::InvalidReaderId { id: 100, max: 99 })
    ));
}

#[test]
fn slots_are_masked_and_laid_out_behind_the_header() {
    assert_eq!(slot_index(0, 8), 0);
    assert_eq!(slot_index(13, 8), 5);
    assert_eq!(slot_index(u64::MAX, 8), 7);
    assert_eq!(slot_offset::<u64>(0, 8), 256);
    assert_eq!(slot_offset::<u64>(13, 8), 256 + 40);
    assert_eq!(slot_offset::<u32>(3, 2), 256 + 4);
}

#[test]
fn diagnostics_read_a_header_alone() {
    let mut h = RingHeader::new(3, 2);
    h.set_write_idx(6);
    h.set_read_idx(0, 6);
    h.set_read_idx(1, 5);
    assert_eq!(available(&h, 0).unwrap(), 0);
    assert_eq!(available(&h, 1).unwrap(), 1);
    assert!(matches!(
        available(&h, 2),
        Err(ShmRingError::InvalidReaderId { id: 2, max: 1 })
    ));
    assert_eq!(next_slot(&h, 4, 0).unwrap(), None);
    assert_eq!(next_slot(&h, 4, 1).unwrap(), Some(1));
    assert!(next_slot(&h, 4, 9).is_err());
    assert_eq!(slowest_lag_of(&h), 1);
}
