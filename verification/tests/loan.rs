//! Tests of zero-copy loans: commit, abort and drop, pipeline capacity,
//! pinning, and interleaved producers.

use shm_rings::header::ByteOrder;
use shm_rings::ring::RingMemory;
use shm_rings::{Loan, ShmRingError, SpmcRingBuffer};

type U64Ring = SpmcRingBuffer<u64>;

fn temp_ring(name: &str, capacity: usize) -> (U64Ring, RingMemory<u64>) {
    U64Ring::create_new_with_readers(name.to_string(), false, capacity, 1, 0).expect("create_new")
}

/// Two participating readers (tests that exercise reader independence).
fn temp_ring_2readers(name: &str, capacity: usize) -> (U64Ring, RingMemory<u64>) {
    U64Ring::create_new_with_readers(name.to_string(), false, capacity, 2, 0).expect("create_new")
}

fn open(ring: &U64Ring, mem: &RingMemory<u64>) -> U64Ring {
    U64Ring::open_existing(ring.path().to_string(), mem).unwrap()
}

#[test]
fn loan_commit_matches_try_pop_values() {
    let (mut ring, mut mem) = temp_ring("loan_values.ring", 16);
    for i in 0..8u64 {
        assert!(ring.try_push(&mut mem, &(i * 3)));
    }
    let mut reader = open(&ring, &mem);
    for i in 0..8u64 {
        let mut loan = reader.claim(&mem, 0).unwrap().expect("message available");
        assert_eq!(loan.index(), i);
        assert_eq!(
            *loan.value(&mem),
            i * 3,
            "loan must view the pushed record in place"
        );
        loan.commit(&mut reader, &mut mem).unwrap();
    }
    assert!(reader.claim(&mem, 0).unwrap().is_none(), "drained");
    // The commit path and try_pop observe identical stream state.
    assert_eq!(reader.try_pop(&mut mem, 0).unwrap(), None);
}

#[test]
fn loan_drop_commits_by_default() {
    let (mut ring, mut mem) = temp_ring("loan_drop.ring", 8);
    for i in 0..4u64 {
        assert!(ring.try_push(&mut mem, &i));
    }
    let mut reader = open(&ring, &mem);
    {
        let loan = reader.claim(&mem, 0).unwrap().expect("loan");
        assert_eq!(*loan.value(&mem), 0);
        // Given up without an explicit commit: that commits (cursor 0 -> 1).
        loan.drop(&mut reader, &mut mem);
    }
    assert_eq!(ring.slowest_lag(&mem), 3, "cursor advanced by drop-commit");
    // Next claim starts at index 1.
    let next = reader.claim(&mem, 0).unwrap().expect("next message");
    assert_eq!(next.index(), 1);
}

#[test]
fn loan_abort_rewinds_and_message_is_reclaimable() {
    let (mut ring, mut mem) = temp_ring("loan_abort.ring", 8);
    for i in 0..4u64 {
        assert!(ring.try_push(&mut mem, &i));
    }
    let mut reader = open(&ring, &mem);

    let loan = reader.claim(&mem, 0).unwrap().expect("loan");
    assert_eq!(*loan.value(&mem), 0);
    loan.abort(&mut reader);
    // Abort did not advance the cursor: the producer stays pinned...
    assert_eq!(ring.slowest_lag(&mem), 4);
    // ...and the same message is claimable again with identical content.
    let mut again = reader.claim(&mem, 0).unwrap().expect("re-claim after abort");
    assert_eq!(again.index(), 0);
    assert_eq!(*again.value(&mem), 0);
    again.commit(&mut reader, &mut mem).unwrap();
    assert_eq!(ring.slowest_lag(&mem), 3, "commit released the pin");
}

#[test]
fn loan_abort_rewinds_pipeline_later_loans_recover() {
    let (mut ring, mut mem) = temp_ring("loan_rewind.ring", 8);
    for i in 0..4u64 {
        assert!(ring.try_push(&mut mem, &i));
    }
    let mut reader = open(&ring, &mem);

    let first = reader.claim(&mem, 0).unwrap().expect("loan 0");
    let mut second = reader.claim(&mem, 0).unwrap().expect("loan 1");
    assert_eq!((first.index(), second.index()), (0, 1));

    // Rewind to 0: message 0 is released unconsumed.
    first.abort(&mut reader);
    // The stale later loan cannot commit (cursor is still at 0).
    match second.commit(&mut reader, &mut mem) {
        Err(ShmRingError::LoanNotAtCursor { index, cursor }) => {
            assert_eq!((index, cursor), (1, 0));
        }
        other => panic!("expected LoanNotAtCursor, got {other:?}"),
    }
    // Re-claim re-issues index 0; the pipeline resumes in order.
    let mut reclaimed = reader.claim(&mem, 0).unwrap().expect("re-claim");
    assert_eq!(reclaimed.index(), 0);
    reclaimed.commit(&mut reader, &mut mem).unwrap();
    // The stale second loan's index is next in line: it commits now.
    second.commit(&mut reader, &mut mem).unwrap();
    assert_eq!(ring.slowest_lag(&mem), 2, "two messages consumed");
}

#[test]
fn out_of_order_commit_rejected_then_fifo_succeeds() {
    let (mut ring, mut mem) = temp_ring("loan_fifo.ring", 8);
    for i in 0..3u64 {
        assert!(ring.try_push(&mut mem, &i));
    }
    let mut reader = open(&ring, &mem);
    let mut loans: Vec<Loan> = (0..3)
        .map(|_| reader.claim(&mem, 0).unwrap().unwrap())
        .collect();
    assert_eq!(
        loans.iter().map(|l| l.index()).collect::<Vec<_>>(),
        vec![0, 1, 2]
    );

    match loans[2].commit(&mut reader, &mut mem) {
        Err(ShmRingError::LoanNotAtCursor { .. }) => {}
        other => panic!("expected LoanNotAtCursor, got {other:?}"),
    }
    // Nothing was written by the failed commit; the loan still pins.
    assert_eq!(*loans[2].value(&mem), 2);
    for (i, loan) in loans.iter_mut().enumerate() {
        loan.commit(&mut reader, &mut mem)
            .unwrap_or_else(|e| panic!("commit {i}: {e:?}"));
    }
    assert_eq!(ring.slowest_lag(&mem), 0);
}

#[test]
fn commit_is_idempotent_and_drop_after_commit_is_noop() {
    let (mut ring, mut mem) = temp_ring("loan_idem.ring", 8);
    assert!(ring.try_push(&mut mem, &7));
    let mut reader = open(&ring, &mem);
    let mut loan = reader.claim(&mem, 0).unwrap().unwrap();
    loan.commit(&mut reader, &mut mem).unwrap();
    loan.commit(&mut reader, &mut mem).unwrap(); // idempotent
    loan.drop(&mut reader, &mut mem); // must not double-advance
    assert_eq!(ring.slowest_lag(&mem), 0, "exactly one cursor advance");
    assert!(reader.claim(&mem, 0).unwrap().is_none());
}

#[test]
fn overlapping_loans_up_to_capacity() {
    let cap = 8;
    let (mut ring, mut mem) = temp_ring("loan_cap.ring", cap);
    for i in 0..cap as u64 {
        assert!(ring.try_push(&mut mem, &i));
    }
    let mut reader = open(&ring, &mem);

    let loans: Vec<Loan> = (0..cap)
        .map(|_| reader.claim(&mem, 0).unwrap().unwrap())
        .collect();
    assert_eq!(
        loans.iter().map(|l| l.index()).collect::<Vec<_>>(),
        (0..cap as u64).collect::<Vec<_>>()
    );
    // The published stream is exhausted: further claims get None (producer
    // is backpressured, so the pipeline is bounded by capacity).
    assert!(
        reader.claim(&mem, 0).unwrap().is_none(),
        "no more published messages"
    );

    for (i, mut loan) in loans.into_iter().enumerate() {
        assert_eq!(*loan.value(&mem), i as u64, "loan {i} views its own record");
        loan.commit(&mut reader, &mut mem).unwrap();
    }
    assert_eq!(ring.slowest_lag(&mem), 0);
}

#[test]
fn try_pop_rejected_while_loan_outstanding() {
    let (mut ring, mut mem) = temp_ring_2readers("loan_guard.ring", 8);
    assert!(ring.try_push(&mut mem, &1));
    let mut reader = open(&ring, &mem);

    let mut loan = reader.claim(&mem, 0).unwrap().unwrap();
    match reader.try_pop(&mut mem, 0) {
        Err(ShmRingError::LoanOutstanding { reader_id }) => assert_eq!(reader_id, 0),
        other => panic!("expected LoanOutstanding, got {other:?}"),
    }
    // Other readers are unaffected by reader 0's gate.
    assert_eq!(reader.try_pop(&mut mem, 1).unwrap(), Some(1));
    loan.commit(&mut reader, &mut mem).unwrap();
    assert!(
        reader.try_pop(&mut mem, 0).unwrap().is_none(),
        "loan consumed the message"
    );
}

#[test]
fn loan_pins_producer_at_capacity() {
    let cap = 4;
    let (mut ring, mut mem) = temp_ring("loan_pin.ring", cap);
    for i in 0..cap as u64 {
        assert!(ring.try_push(&mut mem, &i));
    }
    let mut reader = open(&ring, &mem);

    let mut loan = reader.claim(&mem, 0).unwrap().unwrap();
    // Ring full, cursor pinned at 0 by the open loan: producer is stopped.
    assert!(!ring.try_push(&mut mem, &99));
    loan.commit(&mut reader, &mut mem).unwrap();
    // Cursor moved to 1: one slot is free again.
    assert!(ring.try_push(&mut mem, &99));
}

#[test]
fn failed_claim_releases_the_gate() {
    let (mut ring, mut mem) = temp_ring("loan_empty.ring", 8);
    // Empty ring: claim fails...
    assert!(ring.claim(&mem, 0).unwrap().is_none());
    // ...and the loan gate must be released: try_pop still works.
    let mut producer = open(&ring, &mem);
    assert!(producer.try_push(&mut mem, &5));
    assert_eq!(ring.try_pop(&mut mem, 0).unwrap(), Some(5));
}

#[derive(Debug, Clone, Copy)]
struct Record {
    seq: u64,
    payload: [u8; 16],
    checksum: u64,
}

impl Record {
    fn bytes(&self) -> Vec<u8> {
        let mut out = Vec::new();
        out.extend_from_slice(&self.seq.to_ne_bytes());
        out.extend_from_slice(&self.payload);
        out.extend_from_slice(&self.checksum.to_ne_bytes());
        out
    }
}

#[test]
fn loan_bytes_view_matches_record() {
    let blank = Record {
        seq: 0,
        payload: [0; 16],
        checksum: 0,
    };
    let (mut ring, mut mem) =
        SpmcRingBuffer::<Record>::create_new("loan_record.ring".to_string(), false, 4, blank)
            .unwrap();
    let record = Record {
        seq: 0xDEAD_BEEF,
        payload: *b"fixed-layout-ok!",
        checksum: 0x1234,
    };
    assert!(ring.try_push(&mut mem, &record));

    let mut reader =
        SpmcRingBuffer::<Record>::open_existing("loan_record.ring".to_string(), &mem).unwrap();
    let mut loan = reader.claim(&mem, 0).unwrap().unwrap();
    assert_eq!(loan.value(&mem).seq, 0xDEAD_BEEF);
    assert_eq!(loan.value(&mem).payload, *b"fixed-layout-ok!");
    assert_eq!(loan.value(&mem).checksum, 0x1234);

    // The file the memory stands for: header, then the slots.
    let mut file = mem.header.to_bytes(ByteOrder::Little);
    for slot in &mem.slots {
        file.extend_from_slice(&slot.bytes());
    }
    assert_eq!(file.len() as u64, mem.file_len());

    // The byte view is the mapped record, size_of(Record) bytes long.
    let bytes = loan.as_bytes::<Record>(4, &file);
    assert_eq!(bytes.len(), std::mem::size_of::<Record>());
    assert_eq!(bytes[..8], record.seq.to_ne_bytes());
    assert_eq!(bytes, &record.bytes()[..]);
    loan.commit(&mut reader, &mut mem).unwrap();
}

#[test]
fn loans_on_different_readers_are_independent() {
    let (mut ring, mut mem) = temp_ring_2readers("loan_readers.ring", 8);
    for i in 0..4u64 {
        assert!(ring.try_push(&mut mem, &i));
    }
    let mut reader = open(&ring, &mem);

    let mut loan0 = reader.claim(&mem, 0).unwrap().unwrap();
    // Reader 0's gate does not block reader 1's pops or claims.
    assert_eq!(reader.try_pop(&mut mem, 1).unwrap(), Some(0));
    let mut loan1 = reader.claim(&mem, 1).unwrap().unwrap();
    assert_eq!(loan1.index(), 1, "reader 1's pop advanced its own cursor");
    assert_eq!(loan0.index(), 0);
    assert_eq!((loan0.reader_id(), loan1.reader_id()), (0, 1));
    loan0.commit(&mut reader, &mut mem).unwrap();
    loan1.commit(&mut reader, &mut mem).unwrap();
}

#[test]
fn claim_realigns_after_external_cursor_advance() {
    let (mut ring, mut mem) = temp_ring("loan_realign.ring", 8);
    for i in 0..4u64 {
        assert!(ring.try_push(&mut mem, &i));
    }
    let mut a = open(&ring, &mem);
    let mut b = open(&ring, &mem);

    // Handle A claims and commits index 0.
    let mut loan = a.claim(&mem, 0).unwrap().unwrap();
    loan.commit(&mut a, &mut mem).unwrap();
    // Handle B (fresh pipeline at base 0, cursor now 1) must realign and
    // claim index 1, never a stale index behind the cursor.
    let loan_b = b.claim(&mem, 0).unwrap().unwrap();
    assert_eq!(loan_b.index(), 1);
    assert_eq!(*loan_b.value(&mem), 1);
}

fn assert_send<T: Send>() {}

#[test]
fn loans_are_send_and_resolvable_on_another_thread() {
    assert_send::<Loan>();
    let (mut ring, mut mem) = temp_ring("loan_send.ring", 8);
    assert!(ring.try_push(&mut mem, &0xC0FFEE));
    let mut reader = open(&ring, &mem);
    let mut loan = reader.claim(&mem, 0).unwrap().unwrap();
    assert_eq!(*loan.value(&mem), 0xC0FFEE);
    loan.commit(&mut reader, &mut mem).unwrap();
    assert_eq!(loan.index(), 0);
    assert_eq!(ring.slowest_lag(&mem), 0);
}

/// A small generator of turns: whose turn it is varies without a pattern.
fn turns(seed: u64) -> impl FnMut() -> bool {
    let mut state = seed;
    move || {
        state = state
            .wrapping_mul(6364136223846793005)
            .wrapping_add(1442695040888963407);
        (state >> 40) % 3 != 0
    }
}

#[test]
fn concurrent_claims_commits_with_producer() {
    const MESSAGES: u64 = 5_000;
    let (mut ring, mut mem) = temp_ring("loan_concurrent.ring", 64);
    let mut reader = open(&ring, &mem);
    let mut producer_goes = turns(7);

    let mut sent = 0u64;
    let mut got = 0u64;
    while got < MESSAGES {
        if producer_goes() {
            if sent < MESSAGES && ring.try_push(&mut mem, &sent) {
                sent += 1;
            }
        } else if let Some(mut loan) = reader.claim(&mem, 0).unwrap() {
            // The producer may run on while the loan is open.
            while producer_goes() {
                if sent < MESSAGES && ring.try_push(&mut mem, &sent) {
                    sent += 1;
                }
            }
            assert_eq!(*loan.value(&mem), got, "loan stream must be FIFO");
            loan.commit(&mut reader, &mut mem).unwrap();
            got += 1;
        }
    }
    assert_eq!(got, MESSAGES);
    assert_eq!(ring.total_written(&mem), MESSAGES);
    assert_eq!(ring.slowest_lag(&mem), 0);
}

#[test]
fn abort_during_active_producer_keeps_stream_consistent() {
    const MESSAGES: u64 = 2_000;
    let (mut ring, mut mem) = temp_ring("loan_abort_stress.ring", 32);
    let mut reader = open(&ring, &mem);
    let mut producer_goes = turns(11);

    let mut sent = 0u64;
    let mut committed = 0u64;
    let mut aborted = 0u64;
    // Abort each index at most once, so every lap makes progress.
    let mut abort_armed = true;
    while committed < MESSAGES {
        if producer_goes() {
            if sent < MESSAGES && ring.try_push(&mut mem, &sent) {
                sent += 1;
            }
        } else if let Some(mut loan) = reader.claim(&mem, 0).unwrap() {
            // The cursor only moves via commits, so every claim lands
            // exactly on the first uncommitted message.
            assert_eq!(loan.index(), committed, "claims are FIFO");
            if abort_armed && loan.index() % 3 == 0 {
                loan.abort(&mut reader);
                aborted += 1;
                abort_armed = false;
            } else {
                assert_eq!(*loan.value(&mem), committed, "value at the cursor");
                loan.commit(&mut reader, &mut mem).unwrap();
                committed += 1;
                abort_armed = true;
            }
        }
    }
    assert_eq!(committed, MESSAGES);
    assert!(aborted > 0, "abort path exercised");
    assert_eq!(ring.slowest_lag(&mem), 0, "all messages finally committed");
}

#[test]
fn claim_refuses_readers_that_do_not_participate() {
    let (mut ring, mem) = temp_ring("loan_rid.ring", 4);
    assert!(matches!(
        ring.claim(&mem, 1),
        Err(ShmRingError::InvalidReaderId { id: 1, max: 0 })
    ));
}

#[test]
fn dropping_a_loan_off_the_cursor_only_releases_it() {
    let (mut ring, mut mem) = temp_ring("loan_off.ring", 4);
    for i in 0..2u64 {
        assert!(ring.try_push(&mut mem, &i));
    }
    let mut first = ring.claim(&mem, 0).unwrap().unwrap();
    let second = ring.claim(&mem, 0).unwrap().unwrap();
    second.drop(&mut ring, &mut mem);
    assert_eq!(ring.slowest_lag(&mem), 2, "no cursor moved");
    assert!(ring.try_pop(&mut mem, 0).is_err(), "the first is still open");
    first.commit(&mut ring, &mut mem).unwrap();
    assert_eq!(ring.try_pop(&mut mem, 0).unwrap(), Some(1));
}
