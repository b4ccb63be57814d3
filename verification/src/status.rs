//! A validated status block: one plain-old-data record in a fixed-length
//! file, written by one process and read by others.
//!
//! Where a ring streams messages, a status block publishes state: counters,
//! flags, heartbeats. A record begins with its identity (a `u64` magic at
//! offset 0, a `u32` version at offset 8), and both are checked before
//! anything else in the file is trusted: a same-magic layout bump must fail
//! loudly rather than misinterpret bytes.

use vstd::prelude::*;

use crate::error::ShmRingError;
use crate::header::{read_u32, read_u64, ByteOrder};

verus! {

/// A plain-old-data record that can live in a status file. Its first two
/// fields are the magic and the version.
pub trait PodStatus: Copy {
    /// Identity written at offset 0; files whose magic differs are rejected.
    const MAGIC: u64;

    /// Layout version written at offset 8; files whose version differs are
    /// rejected. Bump on any layout change.
    const VERSION: u32;

    /// The magic field. An implementation to be verified names it here; one
    /// that does not leaves it unspecified.
    open spec fn magic_field(&self) -> u64 {
        arbitrary()
    }

    /// The version field, likewise.
    open spec fn version_field(&self) -> u32 {
        arbitrary()
    }

    /// The stored magic (for rejection diagnostics).
    fn magic(&self) -> (r: u64)
        ensures
            r == self.magic_field(),
    ;

    /// The stored version (for rejection diagnostics).
    fn version(&self) -> (r: u32)
        ensures
            r == self.version_field(),
    ;

    /// Stamps [`Self::MAGIC`] into the magic field.
    fn set_magic(&mut self)
        ensures
            final(self).magic_field() == Self::MAGIC,
            final(self).version_field() == old(self).version_field(),
    ;

    /// Reader gate: the stored magic is [`Self::MAGIC`].
    fn magic_matches(&self) -> (r: bool)
        ensures
            r == (self.magic_field() == Self::MAGIC),
    {
        self.magic() == Self::MAGIC
    }

    /// Reader gate: the stored version is [`Self::VERSION`].
    fn version_matches(&self) -> (r: bool)
        ensures
            r == (self.version_field() == Self::VERSION),
    {
        self.version() == Self::VERSION
    }
}

/// Length of the identity at the start of every record.
pub const IDENTITY_SIZE: usize = 12;

/// The identity check that fails first, in the order magic, version, is the
/// one that `err` reports, with what was found and what was wanted.
pub open spec fn rejects_identity(
    err: ShmRingError,
    magic: u64,
    version: u32,
    want_magic: u64,
    want_version: u32,
) -> bool {
    if magic != want_magic {
        &&& err matches ShmRingError::HeaderCorruption { field, expected, got }
        &&& field@ == "magic"@
        &&& expected == want_magic
        &&& got == magic
    } else {
        &&& version != want_version
        &&& err matches ShmRingError::VersionMismatch { expected, got }
        &&& expected == want_version
        &&& got == version
    }
}

/// `err` reports a file of `got_len` bytes where `want_len` are needed.
pub open spec fn rejects_length(err: ShmRingError, got_len: nat, want_len: nat) -> bool {
    &&& got_len < want_len
    &&& err matches ShmRingError::FileTooShort { expected, got }
    &&& expected == want_len
    &&& got == got_len
}

/// The magic that `file` begins with, its bytes in `order`.
pub open spec fn stored_magic(file: Seq<u8>, order: ByteOrder) -> u64 {
    crate::header::u64_at(file, 0, order)
}

/// The version that follows it.
pub open spec fn stored_version(file: Seq<u8>, order: ByteOrder) -> u32 {
    crate::header::u32_at(file, 8, order)
}

/// `file` with its beginning replaced by `record`.
pub open spec fn overwritten(file: Seq<u8>, record: Seq<u8>) -> Seq<u8> {
    record + file.skip(record.len() as int)
}

/// Overwriting keeps the length of the file, puts the record at its start,
/// with the identity that the record carries, and changes nothing behind it.
pub proof fn law_overwritten_holds_record(file: Seq<u8>, record: Seq<u8>, order: ByteOrder)
    requires
        IDENTITY_SIZE <= record.len() <= file.len(),
    ensures
        overwritten(file, record).len() == file.len(),
        overwritten(file, record).take(record.len() as int) == record,
        overwritten(file, record).skip(record.len() as int) == file.skip(record.len() as int),
        stored_magic(overwritten(file, record), order) == stored_magic(record, order),
        stored_version(overwritten(file, record), order) == stored_version(record, order),
{
    let out = overwritten(file, record);
    assert(out.take(record.len() as int) =~= record);
    assert(out.skip(record.len() as int) =~= file.skip(record.len() as int));
    assert(out.subrange(0, 8) =~= record.subrange(0, 8));
    assert(out.subrange(8, 12) =~= record.subrange(8, 12));
}

/// What a read of `mapped` returns. Only a file long enough is decoded.
pub open spec fn read_outcome<T: PodStatus, F: FnOnce(&[u8]) -> T>(
    mapped: &[u8],
    decode: F,
    r: Result<T, ShmRingError>,
) -> bool {
    match r {
        Ok(value) => {
            &&& vstd::layout::size_of::<T>() <= mapped@.len()
            &&& decode.ensures((mapped,), value)
            &&& value.magic_field() == T::MAGIC
            &&& value.version_field() == T::VERSION
        },
        Err(err) => if mapped@.len() < vstd::layout::size_of::<T>() {
            rejects_length(err, mapped@.len(), vstd::layout::size_of::<T>())
        } else {
            exists|value: T|
                {
                    &&& #[trigger] decode.ensures((mapped,), value)
                    &&& rejects_identity(
                        err,
                        value.magic_field(),
                        value.version_field(),
                        T::MAGIC,
                        T::VERSION,
                    )
                }
        },
    }
}

/// What an update of `file` with the bytes of `record` returns, and the bytes
/// `after` it: it is refused, and writes nothing, where the file is too short
/// or holds another identity.
pub open spec fn update_outcome<T: PodStatus>(
    file: Seq<u8>,
    record: Seq<u8>,
    order: ByteOrder,
    r: Result<(), ShmRingError>,
    after: Seq<u8>,
) -> bool {
    let magic = stored_magic(file, order);
    let version = stored_version(file, order);
    match r {
        Ok(()) => {
            &&& record.len() <= file.len()
            &&& magic == T::MAGIC
            &&& version == T::VERSION
            &&& after == overwritten(file, record)
        },
        Err(err) => {
            &&& after == file
            &&& if file.len() < record.len() {
                rejects_length(err, file.len(), record.len())
            } else {
                rejects_identity(err, magic, version, T::MAGIC, T::VERSION)
            }
        },
    }
}

/// `record` holds the bytes of `value`: `decode` gives `value`, and nothing
/// else, on every file that begins with them.
pub open spec fn encodes<T: PodStatus, F: FnOnce(&[u8]) -> T>(
    record: Seq<u8>,
    value: T,
    decode: F,
) -> bool {
    &&& record.len() == vstd::layout::size_of::<T>()
    &&& forall|m: &[u8], v: T|
        {
            &&& record.len() <= m@.len()
            &&& m@.take(record.len() as int) == record
            &&& #[trigger] decode.ensures((m,), v)
        } ==> v == value
}

/// What was created is what is read: a file that was created with the bytes of
/// a value, carrying the identity of its type, is exactly as long as the
/// value, and a read gives the value.
pub proof fn law_created_status_reads_back<T: PodStatus, F: FnOnce(&[u8]) -> T>(
    record: Seq<u8>,
    value: T,
    decode: F,
    mapped: &[u8],
    r: Result<T, ShmRingError>,
)
    requires
        encodes(record, value, decode),
        value.magic_field() == T::MAGIC,
        value.version_field() == T::VERSION,
        mapped@ == record,
        read_outcome(mapped, decode, r),
    ensures
        mapped@.len() == vstd::layout::size_of::<T>(),
        r == Ok::<T, ShmRingError>(value),
{
    assert(mapped@.take(record.len() as int) =~= record);
}

/// What was updated is what is read: an update of a file that holds the
/// identity of its type succeeds, keeps the length of the file, and a read
/// gives the new value.
pub proof fn law_updated_status_reads_back<T: PodStatus, F: FnOnce(&[u8]) -> T>(
    file: Seq<u8>,
    record: Seq<u8>,
    order: ByteOrder,
    value: T,
    decode: F,
    updated: Result<(), ShmRingError>,
    mapped: &[u8],
    r: Result<T, ShmRingError>,
)
    requires
        encodes(record, value, decode),
        IDENTITY_SIZE <= record.len() <= file.len(),
        value.magic_field() == T::MAGIC,
        value.version_field() == T::VERSION,
        stored_magic(file, order) == T::MAGIC,
        stored_version(file, order) == T::VERSION,
        update_outcome::<T>(file, record, order, updated, mapped@),
        read_outcome(mapped, decode, r),
    ensures
        updated is Ok,
        mapped@.len() == file.len(),
        r == Ok::<T, ShmRingError>(value),
{
    law_overwritten_holds_record(file, record, order);
}

/// Whether a file of `got` bytes can hold a record of `size` bytes.
pub fn check_length(size: u64, got: u64) -> (r: Result<(), ShmRingError>)
    ensures
        match r {
            Ok(()) => size <= got,
            Err(err) => rejects_length(err, got as nat, size as nat),
        },
{
    if got < size {
        return Err(ShmRingError::FileTooShort { expected: size, got });
    }
    Ok(())
}

/// The identity gates, on the values found.
pub fn check_identity(
    magic: u64,
    version: u32,
    want_magic: u64,
    want_version: u32,
) -> (r: Result<(), ShmRingError>)
    ensures
        match r {
            Ok(()) => magic == want_magic && version == want_version,
            Err(err) => rejects_identity(err, magic, version, want_magic, want_version),
        },
{
    if magic != want_magic {
        return Err(
            ShmRingError::HeaderCorruption { field: "magic", expected: want_magic, got: magic },
        );
    }
    if version != want_version {
        return Err(ShmRingError::VersionMismatch { expected: want_version, got: version });
    }
    Ok(())
}

/// Copies `record` over the beginning of `mapped`.
fn write_record(mapped: &mut [u8], record: &[u8])
    requires
        record@.len() <= old(mapped)@.len(),
    ensures
        final(mapped)@ == overwritten(old(mapped)@, record@),
{
    let mut i: usize = 0;
    while i < record.len()
        invariant
            i <= record@.len() <= old(mapped)@.len(),
            mapped@.len() == old(mapped)@.len(),
            forall|k: int| 0 <= k < i ==> mapped@[k] == record@[k],
            forall|k: int| i <= k < mapped@.len() ==> mapped@[k] == old(mapped)@[k],
        decreases record@.len() - i,
    {
        mapped[i] = record[i];
        i += 1;
    }
    assert(mapped@ =~= overwritten(old(mapped)@, record@));
}

/// Fills a freshly created (or truncated) status file, mapped at exactly the
/// length of the record, with the bytes of the initial record.
pub fn create(mapped: &mut [u8], record: &[u8])
    requires
        old(mapped)@.len() == record@.len(),
    ensures
        final(mapped)@ == record@,
{
    write_record(mapped, record);
    assert(mapped@ =~= record@);
}

/// Reads a validated record out of a mapped status file.
///
/// The length is checked first; then the record is materialized by `decode`
/// and its magic and its version are checked, in this order.
pub fn read<T: PodStatus, F: FnOnce(&[u8]) -> T>(mapped: &[u8], decode: F) -> (r: Result<
    T,
    ShmRingError,
>)
    requires
        vstd::layout::size_of::<T>() <= mapped@.len() ==> decode.requires((mapped,)),
    ensures
        read_outcome(mapped, decode, r),
{
    match check_length(std::mem::size_of::<T>() as u64, mapped.len() as u64) {
        Ok(()) => {},
        Err(err) => {
            return Err(err);
        },
    }
    gate(decode(mapped))
}

/// Lets a materialized record through if its identity is that of its type.
pub fn gate<T: PodStatus>(value: T) -> (r: Result<T, ShmRingError>)
    ensures
        match r {
            Ok(v) => {
                &&& v == value
                &&& value.magic_field() == T::MAGIC
                &&& value.version_field() == T::VERSION
            },
            Err(err) => rejects_identity(
                err,
                value.magic_field(),
                value.version_field(),
                T::MAGIC,
                T::VERSION,
            ),
        },
{
    if !value.magic_matches() {
        return Err(
            ShmRingError::HeaderCorruption {
                field: "magic",
                expected: T::MAGIC,
                got: value.magic(),
            },
        );
    }
    if !value.version_matches() {
        return Err(
            ShmRingError::VersionMismatch { expected: T::VERSION, got: value.version() },
        );
    }
    Ok(value)
}

/// Overwrites the record in a mapped status file with the bytes of another
/// record of type `T`.
///
/// The file must be long enough and already hold the identity of `T`, stored
/// in `order`, so an update never reinterprets foreign bytes; a refused update
/// writes nothing.
pub fn update<T: PodStatus>(mapped: &mut [u8], record: &[u8], order: ByteOrder) -> (r: Result<
    (),
    ShmRingError,
>)
    requires
        record@.len() == vstd::layout::size_of::<T>(),
        IDENTITY_SIZE <= vstd::layout::size_of::<T>(),
    ensures
        update_outcome::<T>(old(mapped)@, record@, order, r, final(mapped)@),
{
    match check_length(record.len() as u64, mapped.len() as u64) {
        Ok(()) => {},
        Err(err) => {
            return Err(err);
        },
    }
    let magic = read_u64(mapped, 0, order);
    let version = read_u32(mapped, 8, order);
    match check_identity(magic, version, T::MAGIC, T::VERSION) {
        Ok(()) => {},
        Err(err) => {
            return Err(err);
        },
    }
    write_record(mapped, record);
    Ok(())
}

} // verus!
