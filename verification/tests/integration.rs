//! End-to-end tests of the ring.

use shm_rings::header::ByteOrder;
use shm_rings::ring::{check_header_floor, plan_create, plan_open, ring_len, RingMemory};
use shm_rings::{
    RingHeader, ShmRingError, SpmcRingBuffer, HEADER_SIZE, MAGIC, MAX_READERS, VERSION,
};

type U64Ring = SpmcRingBuffer<u64>;

fn temp_ring(name: &str, capacity: usize) -> (U64Ring, RingMemory<u64>) {
    U64Ring::create_new(name.to_string(), false, capacity, 0).expect("create_new")
}

fn open(ring: &U64Ring, mem: &RingMemory<u64>) -> U64Ring {
    U64Ring::open_existing(ring.path().to_string(), mem).expect("open")
}

#[test]
fn create_new_rejects_existing_path() {
    U64Ring::create_new("dup.ring".to_string(), false, 8, 0).expect("first create");
    match U64Ring::create_new("dup.ring".to_string(), true, 8, 0) {
        Err(ShmRingError::AlreadyExists) => {}
        _ => panic!("expected AlreadyExists"),
    }
}

#[test]
fn roundtrip_push_pop() {
    let (mut ring, mut mem) = temp_ring("rt.ring", 16);
    for i in 0..10u64 {
        assert!(ring.try_push(&mut mem, &(i * i)), "push {i}");
    }
    let mut reader = open(&ring, &mem);
    for i in 0..10u64 {
        assert_eq!(reader.try_pop(&mut mem, 0).unwrap(), Some(i * i));
    }
    assert!(reader.try_pop(&mut mem, 0).unwrap().is_none(), "drained");
}

#[test]
fn capacity_boundary_backpressure_then_recover() {
    let cap = 4;
    let (mut ring, mut mem) = temp_ring("cap.ring", cap);
    for i in 0..cap as u64 {
        assert!(ring.try_push(&mut mem, &i), "push {i} into empty ring");
    }
    // Slowest participant is at 0; ring is full -> backpressure.
    assert!(!ring.try_push(&mut mem, &999), "push past capacity must fail");
    assert_eq!(ring.slowest_lag(&mem), cap as u64);

    let mut reader = open(&ring, &mem);

    // All reader cursors take part in backpressure. Reader 0 advancing alone
    // does not lift the slowest participant.
    assert_eq!(reader.try_pop(&mut mem, 0).unwrap(), Some(0));
    assert!(
        !ring.try_push(&mut mem, &999),
        "one of {MAX_READERS} participants advanced only"
    );

    // Once every participant consumes one message the slowest cursor moves
    // to 1 and the producer may push again.
    for id in 1..ring.reader_count(&mem) {
        assert_eq!(reader.try_pop(&mut mem, id).unwrap(), Some(0), "reader {id}");
    }
    assert_eq!(ring.slowest_lag(&mem), (cap - 1) as u64);
    assert!(
        ring.try_push(&mut mem, &999),
        "push after every participant popped must succeed"
    );
    // Reader 0 continues its own stream: 1, 2, 3, then the recovered 999.
    assert_eq!(reader.try_pop(&mut mem, 0).unwrap(), Some(1));
    assert_eq!(reader.try_pop(&mut mem, 0).unwrap(), Some(2));
    assert_eq!(reader.try_pop(&mut mem, 0).unwrap(), Some(3));
    assert_eq!(reader.try_pop(&mut mem, 0).unwrap(), Some(999));
}

#[test]
fn capacity_boundary_single_reader_ring_recovers_after_one_pop() {
    // With exactly one participating reader, the classic boundary dance is
    // literal: fill -> reject -> pop one -> accept.
    let (mut ring, mut mem) =
        U64Ring::create_new_with_readers("single.ring".to_string(), false, 4, 1, 0).unwrap();
    assert_eq!(ring.reader_count(&mem), 1);

    for i in 0..4u64 {
        assert!(ring.try_push(&mut mem, &i));
    }
    assert!(!ring.try_push(&mut mem, &4));
    let mut reader = open(&ring, &mem);
    assert_eq!(reader.try_pop(&mut mem, 0).unwrap(), Some(0));
    assert!(ring.try_push(&mut mem, &4), "pop one -> push succeeds");
    assert!(
        reader.try_pop(&mut mem, 1).is_err(),
        "reader 1 was not provisioned"
    );

    for i in 1..5u64 {
        assert_eq!(reader.try_pop(&mut mem, 0).unwrap(), Some(i));
    }
}

#[test]
fn readers_are_independent() {
    let (mut ring, mut mem) = temp_ring("multi.ring", 16);
    for i in 0..10u64 {
        assert!(ring.try_push(&mut mem, &i));
    }

    let mut r0 = open(&ring, &mem);
    let mut r3 = open(&ring, &mem);

    // Reader 0 drains everything while reader 3 never pops.
    for i in 0..10u64 {
        assert_eq!(r0.try_pop(&mut mem, 0).unwrap(), Some(i));
    }
    assert!(r0.is_empty(&mem, 0).unwrap());
    // Reader 3 lagging 10 behind must not have blocked reader 0, and can
    // still consume the full stream afterwards.
    for i in 0..10u64 {
        assert_eq!(
            r3.try_pop(&mut mem, 3).unwrap(),
            Some(i),
            "reader 3 sees full stream"
        );
    }
}

#[test]
fn header_corruption_magic_detected() {
    let (_ring, mem) = temp_ring("corrupt.ring", 8);

    // Damage the magic at offset 0.
    let mut bytes = mem.header.to_bytes(ByteOrder::Little);
    for b in bytes.iter_mut().take(8) {
        *b = 0xDE;
    }
    let damaged = RingMemory {
        header: RingHeader::from_bytes(&bytes, ByteOrder::Little),
        slots: mem.slots,
    };

    match U64Ring::open_existing("corrupt.ring".to_string(), &damaged) {
        Err(ShmRingError::HeaderCorruption {
            field,
            expected,
            got,
        }) => {
            assert_eq!(field, "magic");
            assert_eq!(expected, MAGIC);
            assert_ne!(got, MAGIC);
        }
        _ => panic!("expected HeaderCorruption"),
    }
}

#[test]
fn version_mismatch_detected() {
    let (_ring, mem) = temp_ring("version.ring", 8);

    let mut bytes = mem.header.to_bytes(ByteOrder::Little);
    // version: u32 at offset 8
    for (i, b) in (VERSION + 1).to_le_bytes().iter().enumerate() {
        bytes[8 + i] = *b;
    }
    let changed = RingMemory {
        header: RingHeader::from_bytes(&bytes, ByteOrder::Little),
        slots: mem.slots,
    };

    match U64Ring::open_existing("version.ring".to_string(), &changed) {
        Err(ShmRingError::VersionMismatch { expected, got }) => {
            assert_eq!(expected, VERSION);
            assert_eq!(got, VERSION + 1);
        }
        _ => panic!("expected VersionMismatch"),
    }
}

#[test]
fn file_too_short_detected() {
    let (_ring, mem) = temp_ring("short.ring", 8);

    // Shrink below the full layout (header + 8 * 8 bytes).
    match plan_open::<u64>(HEADER_SIZE as u64 + 32, &mem.header) {
        Err(ShmRingError::FileTooShort { expected, got }) => {
            assert_eq!(expected, (HEADER_SIZE + 64) as u64);
            assert_eq!(got, (HEADER_SIZE + 32) as u64);
        }
        _ => panic!("expected FileTooShort"),
    }
    let mut short = mem;
    short.slots.truncate(4);
    match U64Ring::open_existing("short.ring".to_string(), &short) {
        Err(ShmRingError::FileTooShort { expected, got }) => {
            assert_eq!(expected, (HEADER_SIZE + 64) as u64);
            assert_eq!(got, (HEADER_SIZE + 32) as u64);
        }
        _ => panic!("expected FileTooShort"),
    }

    // Also shrink below the header floor itself.
    match check_header_floor(100) {
        Err(ShmRingError::FileTooShort { expected, got }) => {
            assert_eq!(expected, HEADER_SIZE as u64);
            assert_eq!(got, 100);
        }
        _ => panic!("expected FileTooShort (header floor)"),
    }
    assert!(check_header_floor(HEADER_SIZE as u64).is_ok());
}

#[test]
fn zero_capacity_rejected() {
    match U64Ring::create_new("zero.ring".to_string(), false, 0, 0) {
        Err(ShmRingError::InvalidCapacity { got }) => assert_eq!(got, 0),
        _ => panic!("expected InvalidCapacity(0)"),
    }
}

#[test]
fn non_power_of_two_capacity_rejected() {
    for bad in [3usize, 6, 12, 1000, usize::MAX] {
        match U64Ring::create_new("np2.ring".to_string(), false, bad, 0) {
            Err(ShmRingError::InvalidCapacity { got }) => assert_eq!(got, bad),
            _ => panic!("expected InvalidCapacity({bad})"),
        }
        // Nothing is planned on rejection, whatever stands at the path.
        assert!(plan_create::<u64>(false, bad, 1).is_err());
        assert!(matches!(
            plan_create::<u64>(true, bad, 1),
            Err(ShmRingError::InvalidCapacity { .. })
        ));
    }
}

#[test]
fn invalid_reader_id_rejected() {
    let (mut ring, mut mem) = temp_ring("rid.ring", 4);
    let max = ring.reader_count(&mem) - 1;
    assert_eq!(max, MAX_READERS - 1);
    match ring.try_pop(&mut mem, max + 1) {
        Err(ShmRingError::InvalidReaderId { id, max: m }) => {
            assert_eq!(id, max + 1);
            assert_eq!(m, max);
        }
        other => panic!("expected InvalidReaderId, got {other:?}"),
    }
    match ring.len(&mem, max + 1) {
        Err(ShmRingError::InvalidReaderId { .. }) => {}
        other => panic!("expected InvalidReaderId from len, got {other:?}"),
    }
    match ring.peek(&mem, max + 1) {
        Err(ShmRingError::InvalidReaderId { .. }) => {}
        other => panic!("expected InvalidReaderId from peek, got {other:?}"),
    }
}

#[test]
fn peek_is_non_consuming() {
    let (mut ring, mut mem) = temp_ring("peek.ring", 4);
    assert!(ring.try_push(&mut mem, &0xABCD));
    let mut reader = open(&ring, &mem);

    assert_eq!(
        *reader.peek(&mem, 0).unwrap().expect("peek on non-empty"),
        0xABCD
    );
    // Non-consuming: peek again -> same value; the cursor has not moved.
    assert_eq!(*reader.peek(&mem, 0).unwrap().expect("second peek"), 0xABCD);

    // try_pop consumes the same message.
    assert_eq!(reader.try_pop(&mut mem, 0).unwrap(), Some(0xABCD));
    assert!(reader.peek(&mem, 0).unwrap().is_none());
}

#[test]
fn diagnostics_track_state() {
    let (mut ring, mut mem) = temp_ring("diag.ring", 8);
    assert_eq!(ring.capacity(), 8);
    assert_eq!(ring.reader_count(&mem), MAX_READERS);
    assert!(ring.is_empty(&mem, 0).unwrap());
    assert_eq!(ring.total_written(&mem), 0);
    assert_eq!(ring.slowest_lag(&mem), 0);

    for i in 0..5u64 {
        assert!(ring.try_push(&mut mem, &i));
    }
    assert_eq!(ring.total_written(&mem), 5);
    assert_eq!(ring.slowest_lag(&mem), 5);
    assert_eq!(ring.len(&mem, 2).unwrap(), 5);
    assert!(!ring.is_empty(&mem, 2).unwrap());

    let mut reader = open(&ring, &mem);
    // Every participant must advance for the slowest cursor to move.
    for id in 0..ring.reader_count(&mem) {
        assert_eq!(reader.try_pop(&mut mem, id).unwrap(), Some(0), "reader {id}");
    }
    assert_eq!(ring.slowest_lag(&mem), 4);
    assert_eq!(reader.path(), ring.path());
}

fn assert_send_sync<T: Send + Sync>() {}

#[test]
fn handles_are_send_and_sync() {
    assert_send_sync::<U64Ring>();
    assert_send_sync::<ShmRingError>();
}

#[test]
fn open_existing_is_idempotent_and_shared() {
    // Many handles to the same memory cooperate through the same header.
    let (mut ring, mut mem) = temp_ring("shared.ring", 8);
    let mut handles = Vec::new();
    for _ in 0..MAX_READERS {
        handles.push(open(&ring, &mem));
    }
    for i in 0..8u64 {
        assert!(ring.try_push(&mut mem, &i));
    }
    for (id, h) in handles.iter_mut().enumerate() {
        for i in 0..8u64 {
            assert_eq!(h.try_pop(&mut mem, id).unwrap(), Some(i), "reader {id}");
        }
    }
}

#[test]
fn created_rings_open_unchanged_for_every_small_capacity() {
    for shift in 0..12 {
        let capacity = 1usize << shift;
        let (ring, mem) = temp_ring("any.ring", capacity);
        assert_eq!(ring.capacity(), capacity);
        assert_eq!(ring.path(), "any.ring");
        assert!(matches!(
            U64Ring::create_new("any.ring".to_string(), true, capacity, 0),
            Err(ShmRingError::AlreadyExists)
        ));
        let opened = open(&ring, &mem);
        assert_eq!(opened.capacity(), capacity);
        assert_eq!(
            mem.file_len(),
            (HEADER_SIZE + capacity * 8) as u64,
            "header plus slots"
        );
    }
}

#[test]
fn ring_of_one_slot_works() {
    let (mut ring, mut mem) =
        U64Ring::create_new_with_readers("one.ring".to_string(), false, 1, 1, 0).unwrap();
    for i in 0..5u64 {
        assert!(ring.try_push(&mut mem, &i));
        assert!(!ring.try_push(&mut mem, &99));
        assert_eq!(ring.try_pop(&mut mem, 0).unwrap(), Some(i));
    }
}

#[test]
fn plan_create_gives_length_and_header() {
    let plan = plan_create::<u64>(false, 8, 3).unwrap();
    assert_eq!(plan.file_len, 256 + 64);
    assert_eq!(plan.header.capacity_mask(), 7);
    assert_eq!(plan.header.num_readers(), 3);
    assert_eq!(plan.header.write_idx(), 0);
    assert!(matches!(
        plan_create::<u64>(true, 8, 3),
        Err(ShmRingError::AlreadyExists)
    ));
}

#[test]
fn layout_length_that_does_not_fit_is_none() {
    assert_eq!(ring_len(4, 8), Some(288));
    assert_eq!(ring_len(1 << 63, 8), None);
    assert_eq!(ring_len(u64::MAX, 1), None);
}

#[test]
fn mask_that_implies_more_than_any_file_is_too_short() {
    let (_ring, mem) = temp_ring("huge.ring", 8);
    let mut header = mem.header;
    header.capacity_mask = (1u64 << 63) - 1;
    match plan_open::<u64>(4096, &header) {
        Err(ShmRingError::FileTooShort { expected, got }) => {
            assert_eq!(expected, u64::MAX);
            assert_eq!(got, 4096);
        }
        _ => panic!("expected FileTooShort"),
    }
}

#[test]
fn hostile_cursor_stalls_instead_of_overwriting() {
    let (mut ring, mut mem) =
        U64Ring::create_new_with_readers("hostile.ring".to_string(), false, 4, 1, 0).unwrap();
    assert!(ring.try_push(&mut mem, &1));
    mem.header.set_read_idx(0, 1000);
    assert!(!ring.try_push(&mut mem, &2));
    assert_eq!(ring.len(&mem, 0).unwrap(), 1u64.wrapping_sub(1000));
    assert_eq!(mem.header.write_idx(), 1);
    assert_eq!(ring.total_written(&mem), 1);
}

#[test]
fn cursors_just_ahead_of_the_producer_stall_it() {
    // In wrapping arithmetic u64::MAX is one behind 0. It is not behind: it is
    // a cursor that no reader can have reached.
    for poison in [1, 2, u64::MAX - 1, u64::MAX] {
        let (mut ring, mut mem) =
            U64Ring::create_new_with_readers("poison.ring".to_string(), false, 2, 2, 0).unwrap();
        mem.header.set_read_idx(0, poison);
        mem.header.set_read_idx(1, u64::MAX);
        assert!(!ring.try_push(&mut mem, &7), "cursor {poison}");
        assert_eq!(mem.header.write_idx(), 0);
        assert_eq!(mem.slots, [0, 0]);
        // One honest reader is enough for the ring to go on.
        mem.header.set_read_idx(1, 0);
        assert!(ring.try_push(&mut mem, &7));
        assert!(ring.try_push(&mut mem, &8));
        assert!(!ring.try_push(&mut mem, &9));
    }
}

#[test]
fn ring_without_readers_stalls_and_refuses() {
    let (mut ring, mut mem) = temp_ring("noreaders.ring", 4);
    assert!(ring.try_push(&mut mem, &1));
    mem.header.num_readers = 0;
    assert!(!ring.try_push(&mut mem, &2));
    assert_eq!(ring.reader_count(&mem), 0);
    assert!(matches!(
        ring.try_pop(&mut mem, 0),
        Err(ShmRingError::InvalidReaderId { id: 0, max: 0 })
    ));
    assert!(matches!(
        ring.peek(&mem, 3),
        Err(ShmRingError::InvalidReaderId { id: 3, max: 0 })
    ));
    assert!(matches!(
        ring.len(&mem, 0),
        Err(ShmRingError::InvalidReaderId { id: 0, max: 0 })
    ));
    assert!(matches!(
        ring.claim(&mem, 0),
        Err(ShmRingError::InvalidReaderId { id: 0, max: 0 })
    ));
}

#[test]
fn rings_too_large_for_any_file_are_refused() {
    let capacity = 1usize << 63;
    for r in [
        plan_create::<u64>(false, capacity, 1).map(|_| ()),
        U64Ring::create_new("large.ring".to_string(), false, capacity, 0).map(|_| ()),
        U64Ring::create_new_with_readers("large.ring".to_string(), false, capacity, 3, 0)
            .map(|_| ()),
    ] {
        match r {
            Err(ShmRingError::FileTooShort { expected, got }) => {
                assert_eq!(expected, u64::MAX);
                assert_eq!(got, 0);
            }
            _ => panic!("expected FileTooShort"),
        }
    }
    // The path is judged first, and the capacity before it.
    assert!(matches!(
        plan_create::<u64>(true, capacity, 1),
        Err(ShmRingError::AlreadyExists)
    ));
    assert!(matches!(
        plan_create::<u64>(true, capacity + 1, 1),
        Err(ShmRingError::InvalidCapacity { .. })
    ));
}

#[test]
fn unused_cursors_never_gate() {
    let (mut ring, mut mem) =
        U64Ring::create_new_with_readers("gate.ring".to_string(), false, 2, 1, 0).unwrap();
    mem.header.set_read_idx(5, 0);
    for i in 0..20u64 {
        assert!(ring.try_push(&mut mem, &i));
        assert_eq!(ring.try_pop(&mut mem, 0).unwrap(), Some(i));
    }
    assert_eq!(ring.slowest_lag(&mem), 0);
}
