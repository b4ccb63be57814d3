//! Tests of the status block.

use shm_rings::header::ByteOrder;
use shm_rings::status::{self, PodStatus};
use shm_rings::ShmRingError;

/// Status type A: scalar fields.
#[derive(Debug, Clone, Copy, PartialEq)]
struct StatusA {
    magic: u64,
    version: u32,
    repo_count: u32,
    total: u64,
}

impl PodStatus for StatusA {
    const MAGIC: u64 = 0x5354_4154_4141_4141;
    const VERSION: u32 = 1;
    fn magic(&self) -> u64 {
        self.magic
    }
    fn version(&self) -> u32 {
        self.version
    }
    fn set_magic(&mut self) {
        self.magic = Self::MAGIC;
    }
}

/// Status type B: different size, fields, magic, and version.
#[derive(Debug, Clone, Copy, PartialEq)]
struct StatusB {
    magic: u64,
    version: u32,
    flags: u32,
    blob: [u8; 32],
}

impl PodStatus for StatusB {
    const MAGIC: u64 = 0x5354_4154_4242_4242;
    const VERSION: u32 = 7;
    fn magic(&self) -> u64 {
        self.magic
    }
    fn version(&self) -> u32 {
        self.version
    }
    fn set_magic(&mut self) {
        self.magic = Self::MAGIC;
    }
}

/// Same layout as A, same VERSION, different MAGIC: isolates the magic gate.
#[derive(Debug, Clone, Copy)]
struct StatusC {
    magic: u64,
    version: u32,
    repo_count: u32,
    total: u64,
}

impl PodStatus for StatusC {
    const MAGIC: u64 = 0x5354_4154_4343_4343;
    const VERSION: u32 = 1;
    fn magic(&self) -> u64 {
        self.magic
    }
    fn version(&self) -> u32 {
        self.version
    }
    fn set_magic(&mut self) {
        self.magic = Self::MAGIC;
    }
}

/// Same MAGIC as A but different VERSION: isolates the version gate.
#[derive(Debug, Clone, Copy)]
struct StatusAV2 {
    magic: u64,
    version: u32,
    repo_count: u32,
    total: u64,
}

impl PodStatus for StatusAV2 {
    const MAGIC: u64 = StatusA::MAGIC;
    const VERSION: u32 = 2;
    fn magic(&self) -> u64 {
        self.magic
    }
    fn version(&self) -> u32 {
        self.version
    }
    fn set_magic(&mut self) {
        self.magic = Self::MAGIC;
    }
}

fn status_a(count: u32, total: u64) -> StatusA {
    StatusA {
        magic: StatusA::MAGIC,
        version: StatusA::VERSION,
        repo_count: count,
        total,
    }
}

fn status_b(flags: u32, blob: &[u8]) -> StatusB {
    let mut b = StatusB {
        magic: StatusB::MAGIC,
        version: StatusB::VERSION,
        flags,
        blob: [0u8; 32],
    };
    let n = blob.len().min(32);
    b.blob[..n].copy_from_slice(&blob[..n]);
    b
}

/// The bytes of a record of the shape that A, C and AV2 share.
fn scalar_bytes(magic: u64, version: u32, repo_count: u32, total: u64) -> Vec<u8> {
    let mut out = Vec::new();
    out.extend_from_slice(&magic.to_le_bytes());
    out.extend_from_slice(&version.to_le_bytes());
    out.extend_from_slice(&repo_count.to_le_bytes());
    out.extend_from_slice(&total.to_le_bytes());
    out
}

fn a_bytes(a: &StatusA) -> Vec<u8> {
    scalar_bytes(a.magic, a.version, a.repo_count, a.total)
}

fn word64(bytes: &[u8], at: usize) -> u64 {
    let mut w = [0u8; 8];
    w.copy_from_slice(&bytes[at..at + 8]);
    u64::from_le_bytes(w)
}

fn word32(bytes: &[u8], at: usize) -> u32 {
    let mut w = [0u8; 4];
    w.copy_from_slice(&bytes[at..at + 4]);
    u32::from_le_bytes(w)
}

fn a_from(bytes: &[u8]) -> StatusA {
    StatusA {
        magic: word64(bytes, 0),
        version: word32(bytes, 8),
        repo_count: word32(bytes, 12),
        total: word64(bytes, 16),
    }
}

fn av2_from(bytes: &[u8]) -> StatusAV2 {
    StatusAV2 {
        magic: word64(bytes, 0),
        version: word32(bytes, 8),
        repo_count: word32(bytes, 12),
        total: word64(bytes, 16),
    }
}

fn b_bytes(b: &StatusB) -> Vec<u8> {
    let mut out = Vec::new();
    out.extend_from_slice(&b.magic.to_le_bytes());
    out.extend_from_slice(&b.version.to_le_bytes());
    out.extend_from_slice(&b.flags.to_le_bytes());
    out.extend_from_slice(&b.blob);
    out
}

fn b_from(bytes: &[u8]) -> StatusB {
    let mut blob = [0u8; 32];
    blob.copy_from_slice(&bytes[16..48]);
    StatusB {
        magic: word64(bytes, 0),
        version: word32(bytes, 8),
        flags: word32(bytes, 12),
        blob,
    }
}

/// A file just created for the record and filled with it.
fn created(record: &[u8]) -> Vec<u8> {
    let mut file = vec![0u8; record.len()];
    status::create(&mut file, record);
    file
}

#[test]
fn round_trip_status_a() {
    let file = created(&a_bytes(&status_a(3, 1000)));

    let st: StatusA = status::read(&file, a_from).expect("read");
    assert_eq!(st.magic, StatusA::MAGIC);
    assert_eq!(st.version, StatusA::VERSION);
    assert_eq!(st.repo_count, 3);
    assert_eq!(st.total, 1000);
}

#[test]
fn round_trip_status_b() {
    let file = created(&b_bytes(&status_b(0b1010, b"head-branch-name")));

    let st: StatusB = status::read(&file, b_from).expect("read");
    assert_eq!(st.flags, 0b1010);
    assert_eq!(&st.blob[..16], b"head-branch-name");
}

#[test]
fn read_rejects_corrupted_magic() {
    let mut raw = created(&a_bytes(&status_a(1, 1)));
    raw[..8].copy_from_slice(&0xDEADBEEFu64.to_le_bytes());

    let err = status::read::<StatusA, _>(&raw, a_from).expect_err("must reject");
    match err {
        ShmRingError::HeaderCorruption {
            field: "magic",
            expected,
            got,
        } => {
            assert_eq!(expected, StatusA::MAGIC);
            assert_eq!(got, 0xDEADBEEF);
        }
        other => panic!("expected HeaderCorruption(magic), got {other:?}"),
    }
}

#[test]
fn read_rejects_version_mismatch() {
    let file = created(&a_bytes(&status_a(1, 1)));

    // Same magic, different layout version: must NOT be read as StatusAV2.
    let err = status::read::<StatusAV2, _>(&file, av2_from).expect_err("must reject");
    match err {
        ShmRingError::VersionMismatch { expected, got } => {
            assert_eq!(expected, StatusAV2::VERSION);
            assert_eq!(got, StatusA::VERSION);
        }
        other => panic!("expected VersionMismatch, got {other:?}"),
    }
}

#[test]
fn read_rejects_short_file() {
    let mut raw = created(&a_bytes(&status_a(1, 1)));
    raw.truncate(std::mem::size_of::<StatusA>() - 8);

    let err = status::read::<StatusA, _>(&raw, a_from).expect_err("must reject");
    assert!(
        matches!(
            err,
            ShmRingError::FileTooShort {
                expected: 24,
                got: 16
            }
        ),
        "got {err:?}"
    );
}

#[test]
fn update_persists_mutation() {
    let mut file = created(&a_bytes(&status_a(1, 20)));

    let mut st: StatusA = status::read(&file, a_from).expect("read");
    assert_eq!(st.total, 20);

    st.total = 99;
    st.repo_count = 5;
    status::update::<StatusA>(&mut file, &a_bytes(&st), ByteOrder::Little).expect("update");

    let updated: StatusA = status::read(&file, a_from).expect("read after update");
    assert_eq!(updated.total, 99);
    assert_eq!(updated.repo_count, 5);
}

#[test]
fn update_rejects_foreign_file() {
    // Same size as StatusA (24 bytes), so the length gate passes and the
    // identity gates are what reject, for both magic and version.
    let mut file = created(&a_bytes(&status_a(1, 1)));
    let before = file.clone();
    let foreign = StatusC {
        magic: StatusC::MAGIC,
        version: StatusC::VERSION,
        repo_count: 1,
        total: 1,
    };
    let err = status::update::<StatusC>(
        &mut file,
        &scalar_bytes(
            foreign.magic,
            foreign.version,
            foreign.repo_count,
            foreign.total,
        ),
        ByteOrder::Little,
    )
    .expect_err("must reject");
    assert!(
        matches!(err, ShmRingError::HeaderCorruption { field: "magic", .. }),
        "got {err:?}"
    );
    assert_eq!(file, before, "a refused update writes nothing");

    let newer = StatusAV2 {
        magic: StatusAV2::MAGIC,
        version: StatusAV2::VERSION,
        repo_count: 1,
        total: 1,
    };
    let err = status::update::<StatusAV2>(
        &mut file,
        &scalar_bytes(newer.magic, newer.version, newer.repo_count, newer.total),
        ByteOrder::Little,
    )
    .expect_err("must reject");
    assert!(
        matches!(err, ShmRingError::VersionMismatch { .. }),
        "got {err:?}"
    );
    assert_eq!(file, before, "a refused update writes nothing");
}

#[test]
fn create_overwrites_existing_file() {
    let mut file = created(&a_bytes(&status_a(1, 1)));
    status::create(&mut file, &a_bytes(&status_a(9, 9)));

    let st: StatusA = status::read(&file, a_from).expect("read");
    assert_eq!(st.repo_count, 9);
    assert_eq!(st.total, 9);
}

#[test]
fn set_magic_stamps_fresh_value() {
    let mut st = StatusA {
        magic: 0,
        version: StatusA::VERSION,
        repo_count: 0,
        total: 0,
    };
    assert!(!st.magic_matches());
    st.set_magic();
    assert!(st.magic_matches());
    assert!(st.version_matches());
}

#[test]
fn update_of_a_longer_file_leaves_the_rest() {
    let mut file = created(&a_bytes(&status_a(1, 1)));
    file.extend_from_slice(&[7, 8, 9]);
    let record = a_bytes(&status_a(2, 3));
    status::update::<StatusA>(&mut file, &record, ByteOrder::Little).expect("update");
    assert_eq!(&file[..24], &record[..]);
    assert_eq!(&file[24..], &[7, 8, 9]);
}

#[test]
fn update_rejects_short_files() {
    let mut file = vec![0u8; 10];
    assert!(matches!(
        status::update::<StatusA>(&mut file, &a_bytes(&status_a(2, 3)), ByteOrder::Little),
        Err(ShmRingError::FileTooShort {
            expected: 24,
            got: 10
        })
    ));
}

#[test]
fn gates_report_what_was_found() {
    assert!(status::check_identity(1, 2, 1, 2).is_ok());
    assert!(matches!(
        status::check_identity(5, 2, 1, 2),
        Err(ShmRingError::HeaderCorruption {
            field: "magic",
            expected: 1,
            got: 5
        })
    ));
    assert!(matches!(
        status::check_identity(1, 3, 1, 2),
        Err(ShmRingError::VersionMismatch {
            expected: 2,
            got: 3
        })
    ));
    assert!(status::gate(status_a(1, 1)).is_ok());
    let mut wrong = status_a(1, 1);
    wrong.version = 4;
    assert!(matches!(
        status::gate(wrong),
        Err(ShmRingError::VersionMismatch {
            expected: 1,
            got: 4
        })
    ));
}

#[test]
fn updated_file_reads_back_at_its_old_length() {
    let mut file = created(&a_bytes(&status_a(1, 1)));
    assert_eq!(status::read(&file, a_from).unwrap(), status_a(1, 1));
    for i in 0..5u32 {
        let next = status_a(i, u64::from(i) * 10);
        status::update::<StatusA>(&mut file, &a_bytes(&next), ByteOrder::Little).unwrap();
        assert_eq!(file.len(), 24);
        assert_eq!(status::read(&file, a_from).unwrap(), next);
    }
}

#[test]
fn update_reads_the_identity_in_the_order_given() {
    let mut record = Vec::new();
    record.extend_from_slice(&StatusA::MAGIC.to_be_bytes());
    record.extend_from_slice(&StatusA::VERSION.to_be_bytes());
    record.extend_from_slice(&[0; 12]);
    let mut file = created(&record);
    assert!(status::update::<StatusA>(&mut file, &record, ByteOrder::Big).is_ok());
    match status::update::<StatusA>(&mut file, &record, ByteOrder::Little) {
        Err(ShmRingError::HeaderCorruption {
            field: "magic",
            expected,
            got,
        }) => {
            assert_eq!(expected, StatusA::MAGIC);
            assert_eq!(got, StatusA::MAGIC.swap_bytes());
        }
        other => panic!("expected HeaderCorruption, got {other:?}"),
    }
}
