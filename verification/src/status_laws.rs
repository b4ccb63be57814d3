//! What the status block promises, over the bytes of its file.
//!
//! As in [`crate::ring_laws`], the premises are calls and their results.

use vstd::prelude::*;

use crate::error::ShmRingError;
use crate::header::ByteOrder;
use crate::status::{check_identity, check_length, create, gate, read, update, PodStatus};

verus! {

/// A record's own checks compare its fields with the identity of its type.
pub proof fn law_record_checks<T: PodStatus>(value: &T, magic: bool, version: bool)
    requires
        call_ensures(T::magic_matches, (value,), magic),
        call_ensures(T::version_matches, (value,), version),
    ensures
        magic <==> value.magic_field() == T::MAGIC,
        version <==> value.version_field() == T::VERSION,
{
}

/// A file can hold a record exactly if it is at least as long.
pub proof fn law_length_check(size: u64, got: u64, r: Result<(), ShmRingError>)
    requires
        call_ensures(check_length, (size, got), r),
    ensures
        r is Ok <==> got >= size,
        got < size ==> (r matches Err(ShmRingError::FileTooShort { expected, got: found })
            && expected == size && found == got),
{
}

/// An identity passes exactly if both its parts are those wanted; else the
/// magic is reported first.
pub proof fn law_identity_check(
    magic: u64,
    version: u32,
    want_magic: u64,
    want_version: u32,
    r: Result<(), ShmRingError>,
)
    requires
        call_ensures(check_identity, (magic, version, want_magic, want_version), r),
    ensures
        r is Ok <==> magic == want_magic && version == want_version,
        magic != want_magic ==> (r matches Err(
            ShmRingError::HeaderCorruption { field, expected, got },
        ) && field@ == "magic"@ && expected == want_magic && got == magic),
        magic == want_magic && version != want_version ==> (r matches Err(
            ShmRingError::VersionMismatch { expected, got },
        ) && expected == want_version && got == version),
{
}

/// A record passes unchanged exactly if its fields are the identity of its
/// type; else the magic is reported first.
pub proof fn law_gate<T: PodStatus>(value: T, r: Result<T, ShmRingError>)
    requires
        call_ensures(gate::<T>, (value,), r),
    ensures
        value.magic_field() == T::MAGIC && value.version_field() == T::VERSION ==> r == Ok::<
            T,
            ShmRingError,
        >(value),
        value.magic_field() != T::MAGIC ==> (r matches Err(
            ShmRingError::HeaderCorruption { field, expected, got },
        ) && field@ == "magic"@ && expected == T::MAGIC && got == value.magic_field()),
        value.magic_field() == T::MAGIC && value.version_field() != T::VERSION ==> (r matches Err(
            ShmRingError::VersionMismatch { expected, got },
        ) && expected == T::VERSION && got == value.version_field()),
{
}

/// A created file holds the record and nothing else.
pub proof fn law_create(mapped: &mut [u8], record: &[u8])
    requires
        call_ensures(create, (mapped, record), ()),
    ensures
        final(mapped)@ == record@,
        old(mapped)@.len() == record@.len() ==> call_requires(create, (mapped, record)),
{
}

/// A read gives what the file decodes to if that carries the identity of its
/// type, and otherwise says what is wrong, in the order length, magic,
/// version. Nothing is decoded of a file too short.
pub proof fn law_read<T: PodStatus, F: FnOnce(&[u8]) -> T>(
    mapped: &[u8],
    decode: F,
    value: T,
    r: Result<T, ShmRingError>,
)
    requires
        call_ensures(read::<T, F>, (mapped, decode), r),
        forall|v: T| #[trigger] decode.ensures((mapped,), v) ==> v == value,
    ensures
        mapped@.len() < vstd::layout::size_of::<T>() ==> (r matches Err(
            ShmRingError::FileTooShort { expected, got },
        ) && expected == vstd::layout::size_of::<T>() && got == mapped@.len()),
        mapped@.len() >= vstd::layout::size_of::<T>() ==> {
            &&& value.magic_field() == T::MAGIC && value.version_field() == T::VERSION ==> r
                == Ok::<T, ShmRingError>(value)
            &&& value.magic_field() != T::MAGIC ==> (r matches Err(
                ShmRingError::HeaderCorruption { field, expected, got },
            ) && field@ == "magic"@ && expected == T::MAGIC && got == value.magic_field())
            &&& value.magic_field() == T::MAGIC && value.version_field() != T::VERSION ==> (
            r matches Err(ShmRingError::VersionMismatch { expected, got }) && expected
                == T::VERSION && got == value.version_field())
        },
        mapped@.len() < vstd::layout::size_of::<T>() || decode.requires((mapped,))
            ==> call_requires(read::<T, F>, (mapped, decode)),
{
}

/// An update is accepted exactly if the file is long enough and begins with
/// the identity of the record's type: eight bytes of magic and four of version,
/// their digits in the byte order given. It then replaces the beginning of the
/// file by the record and leaves the rest; a refused update changes nothing and
/// says what is wrong, in the order length, magic, version.
pub proof fn law_update<T: PodStatus>(
    mapped: &mut [u8],
    record: &[u8],
    order: ByteOrder,
    r: Result<(), ShmRingError>,
)
    requires
        call_ensures(update::<T>, (mapped, record, order), r),
        record@.len() == vstd::layout::size_of::<T>(),
        record@.len() >= 12,
    ensures
        ({
            let file = old(mapped)@;
            let after = final(mapped)@;
            let m = file.subrange(0, 8);
            let v = file.subrange(8, 12);
            let magic = match order {
                ByteOrder::Little => crate::file_laws::number(m),
                ByteOrder::Big => crate::file_laws::number(m.reverse()),
            };
            let version = match order {
                ByteOrder::Little => vstd::bytes::spec_u32_from_le_bytes(v),
                ByteOrder::Big => vstd::bytes::spec_u32_from_le_bytes(v.reverse()),
            };
            let long = file.len() >= record@.len();
            &&& r is Ok <==> long && magic == T::MAGIC && version == T::VERSION
            &&& after.len() == file.len()
            &&& r is Ok ==> {
                &&& forall|i: int| 0 <= i < record@.len() ==> #[trigger] after[i] == record@[i]
                &&& forall|i: int|
                    record@.len() <= i < file.len() ==> #[trigger] after[i] == file[i]
            }
            &&& r is Err ==> after == file
            &&& !long ==> (r matches Err(ShmRingError::FileTooShort { expected, got }) && expected
                == record@.len() && got == file.len())
            &&& long && magic != T::MAGIC ==> (r matches Err(
                ShmRingError::HeaderCorruption { field, expected, got },
            ) && field@ == "magic"@ && expected == T::MAGIC && got == magic)
            &&& long && magic == T::MAGIC && version != T::VERSION ==> (r matches Err(
                ShmRingError::VersionMismatch { expected, got },
            ) && expected == T::VERSION && got == version)
        }),
        call_requires(update::<T>, (mapped, record, order)),
{
    if old(mapped)@.len() >= record@.len() {
        crate::file_laws::lemma_words_are_numbers(old(mapped)@, 0);
    }
}

/// What was written is what is read: a read after an accepted update, and one
/// after a creation, give the value whose bytes were written.
pub proof fn law_written_value_is_read<T: PodStatus, F: FnOnce(&[u8]) -> T>(
    mapped: &mut [u8],
    other: &mut [u8],
    record: &[u8],
    order: ByteOrder,
    value: T,
    decode: F,
    updated: &[u8],
    created: &[u8],
    first: Result<T, ShmRingError>,
    second: Result<T, ShmRingError>,
)
    requires
        record@.len() == vstd::layout::size_of::<T>(),
        record@.len() >= 12,
        forall|m: &[u8], v: T|
            {
                &&& record@.len() <= m@.len()
                &&& m@.take(record@.len() as int) == record@
                &&& #[trigger] decode.ensures((m,), v)
            } ==> v == value,
        value.magic_field() == T::MAGIC,
        value.version_field() == T::VERSION,
        call_ensures(update::<T>, (mapped, record, order), Ok(())),
        updated@ == final(mapped)@,
        call_ensures(read::<T, F>, (updated, decode), first),
        call_ensures(create, (other, record), ()),
        created@ == final(other)@,
        call_ensures(read::<T, F>, (created, decode), second),
    ensures
        first == Ok::<T, ShmRingError>(value),
        second == Ok::<T, ShmRingError>(value),
{
    law_update::<T>(mapped, record, order, Ok(()));
    assert(updated@.take(record@.len() as int) =~= record@);
    assert(created@.take(record@.len() as int) =~= record@);
    law_read(updated, decode, value, first);
    law_read(created, decode, value, second);
}

} // verus!
