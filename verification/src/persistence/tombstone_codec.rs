//! Binary encoding for typed row tombstone archive snapshots.
//!
//! The encoding is a little-endian `u64` count followed by each deleted row
//! identifier as a little-endian `u64`.
use vstd::bytes::*;
use vstd::prelude::*;
use vstd::std_specs::convert::FromSpecImpl;

use crate::bytes::{lemma_u64s_le_bytes, lemma_u64s_round_trip, u64_vec_bytes, u64s_from_le_bytes, write_u64_vec};

use super::tombstone::{
    tombstone_ids_check, tombstone_snapshot_error_message, FSETypedRowTombstoneArchiveSnapshot, FSETypedRowTombstoneArchiveSnapshotError,
};

verus! {

/// Error returned when typed row tombstone archive byte encoding or decoding fails.
#[derive(Clone, Debug, PartialEq, Eq)]
pub enum FSETypedRowTombstoneArchiveCodecError {
    /// The typed row tombstone snapshot failed validation.
    Snapshot(FSETypedRowTombstoneArchiveSnapshotError),
    /// The byte slice ended before a complete typed row tombstone field could be read.
    UnexpectedEndOfArchive {
        /// Archive field being read.
        field: &'static str,
        /// Number of bytes required for the field.
        needed: usize,
        /// Number of bytes remaining in the input.
        remaining: usize,
    },
    /// The archive contained bytes after the decoded typed row tombstone snapshot.
    TrailingBytes {
        /// Number of unread bytes.
        remaining: usize,
    },
    /// A length field cannot be represented by this runtime.
    LengthOutOfRange {
        /// Archive field being read.
        field: &'static str,
        /// Length found in the input.
        length: u64,
    },
}

/// Diagnostic text of an error of type `FSETypedRowTombstoneArchiveCodecError`.
pub open spec fn tombstone_codec_error_message(error: FSETypedRowTombstoneArchiveCodecError) -> &'static str {
    match error {
        FSETypedRowTombstoneArchiveCodecError::Snapshot(error) => tombstone_snapshot_error_message(error),
        FSETypedRowTombstoneArchiveCodecError::UnexpectedEndOfArchive { .. } => {
            "typed row tombstone archive ended before the field could be read"
        },
        FSETypedRowTombstoneArchiveCodecError::TrailingBytes { .. } => {
            "typed row tombstone archive contains trailing bytes"
        },
        FSETypedRowTombstoneArchiveCodecError::LengthOutOfRange { .. } => {
            "typed row tombstone archive length field is outside the runtime range"
        },
    }
}

impl FSETypedRowTombstoneArchiveCodecError {
    /// Returns the diagnostic message for the error.
    pub fn message(&self) -> (message: &'static str)
        ensures
            message == tombstone_codec_error_message(*self),
    {
        match self {
            FSETypedRowTombstoneArchiveCodecError::Snapshot(error) => error.message(),
            FSETypedRowTombstoneArchiveCodecError::UnexpectedEndOfArchive { .. } => {
                "typed row tombstone archive ended before the field could be read"
            },
            FSETypedRowTombstoneArchiveCodecError::TrailingBytes { .. } => {
                "typed row tombstone archive contains trailing bytes"
            },
            FSETypedRowTombstoneArchiveCodecError::LengthOutOfRange { .. } => {
                "typed row tombstone archive length field is outside the runtime range"
            },
        }
    }
}

impl From<FSETypedRowTombstoneArchiveSnapshotError> for FSETypedRowTombstoneArchiveCodecError {
    fn from(error: FSETypedRowTombstoneArchiveSnapshotError) -> (converted: Self) {
        FSETypedRowTombstoneArchiveCodecError::Snapshot(error)
    }
}

impl FromSpecImpl<FSETypedRowTombstoneArchiveSnapshotError> for FSETypedRowTombstoneArchiveCodecError {
    open spec fn obeys_from_spec() -> bool {
        true
    }

    open spec fn from_spec(error: FSETypedRowTombstoneArchiveSnapshotError) -> Self {
        FSETypedRowTombstoneArchiveCodecError::Snapshot(error)
    }
}

/// What encoding a list of deleted row identifiers yields.
pub open spec fn encoded_tombstone_ids(ids: Seq<u64>) -> Result<Seq<u8>, FSETypedRowTombstoneArchiveCodecError> {
    match tombstone_ids_check(ids) {
        Ok(()) => Ok(u64_vec_bytes(ids)),
        Err(error) => Err(FSETypedRowTombstoneArchiveCodecError::Snapshot(error)),
    }
}

/// What decoding the bytes of a typed row tombstone archive yields.
pub open spec fn decoded_tombstone_ids(bytes: Seq<u8>) -> Result<Seq<u64>, FSETypedRowTombstoneArchiveCodecError> {
    let field = "typed_tombstone.deleted_row_ids";
    if bytes.len() < 8 {
        Err(
            FSETypedRowTombstoneArchiveCodecError::UnexpectedEndOfArchive {
                field,
                needed: 8,
                remaining: bytes.len() as usize,
            },
        )
    } else {
        let count = spec_u64_from_le_bytes(bytes.subrange(0, 8));
        let rest = bytes.subrange(8, bytes.len() as int);
        if count > usize::MAX || 8 * count > usize::MAX {
            Err(FSETypedRowTombstoneArchiveCodecError::LengthOutOfRange { field, length: count })
        } else if 8 * count > rest.len() {
            Err(
                FSETypedRowTombstoneArchiveCodecError::UnexpectedEndOfArchive {
                    field,
                    needed: (8 * count) as usize,
                    remaining: rest.len() as usize,
                },
            )
        } else if rest.len() != 8 * count {
            Err(
                FSETypedRowTombstoneArchiveCodecError::TrailingBytes {
                    remaining: (rest.len() - 8 * count) as usize,
                },
            )
        } else {
            let ids = u64s_from_le_bytes(rest, count as nat);
            match tombstone_ids_check(ids) {
                Ok(()) => Ok(ids),
                Err(error) => Err(FSETypedRowTombstoneArchiveCodecError::Snapshot(error)),
            }
        }
    }
}

/// Encodes a typed row tombstone archive snapshot into little-endian bytes.
pub fn encode_typed_row_tombstone_archive_snapshot(
    snapshot: &FSETypedRowTombstoneArchiveSnapshot,
) -> (result: Result<Vec<u8>, FSETypedRowTombstoneArchiveCodecError>)
    ensures
        match encoded_tombstone_ids(snapshot.deleted_row_ids@) {
            Ok(bytes) => result matches Ok(out) && out@ == bytes,
            Err(error) => result == Err::<Vec<u8>, FSETypedRowTombstoneArchiveCodecError>(error),
        },
{
    match snapshot.validate() {
        Ok(()) => {},
        Err(error) => return Err(FSETypedRowTombstoneArchiveCodecError::Snapshot(error)),
    }
    let mut bytes: Vec<u8> = Vec::new();
    write_u64_vec(&mut bytes, snapshot.deleted_row_ids.as_slice());
    assert(bytes@ =~= u64_vec_bytes(snapshot.deleted_row_ids@));
    Ok(bytes)
}

/// Decodes a typed row tombstone archive snapshot from little-endian bytes.
pub fn decode_typed_row_tombstone_archive_snapshot(bytes: &[u8]) -> (result: Result<
    FSETypedRowTombstoneArchiveSnapshot,
    FSETypedRowTombstoneArchiveCodecError,
>)
    ensures
        match decoded_tombstone_ids(bytes@) {
            Ok(ids) => result matches Ok(snapshot) && snapshot.deleted_row_ids@ == ids,
            Err(error) => result == Err::<
                FSETypedRowTombstoneArchiveSnapshot,
                FSETypedRowTombstoneArchiveCodecError,
            >(error),
        },
{
    let mut reader = TypedRowTombstoneArchiveReader::new(bytes);
    let deleted_row_ids = match reader.read_u64_vec("typed_tombstone.deleted_row_ids") {
        Ok(values) => values,
        Err(error) => return Err(error),
    };
    if reader.remaining() != 0 {
        return Err(
            FSETypedRowTombstoneArchiveCodecError::TrailingBytes { remaining: reader.remaining() },
        );
    }
    let snapshot = FSETypedRowTombstoneArchiveSnapshot { deleted_row_ids };
    proof {
        let rest = bytes@.subrange(8, bytes@.len() as int);
        assert(rest =~= bytes@.subrange(8, 8 + 8 * (deleted_row_ids@.len() as int)));
        assert(u64s_from_le_bytes(rest, deleted_row_ids@.len()) =~= deleted_row_ids@);
    }
    match snapshot.validate() {
        Ok(()) => Ok(snapshot),
        Err(error) => Err(FSETypedRowTombstoneArchiveCodecError::Snapshot(error)),
    }
}

impl FSETypedRowTombstoneArchiveSnapshot {
    /// Encodes this typed row tombstone snapshot into little-endian archive bytes.
    pub fn to_archive_bytes(&self) -> (result: Result<Vec<u8>, FSETypedRowTombstoneArchiveCodecError>)
        ensures
            match encoded_tombstone_ids(self.deleted_row_ids@) {
                Ok(bytes) => result matches Ok(out) && out@ == bytes,
                Err(error) => result == Err::<Vec<u8>, FSETypedRowTombstoneArchiveCodecError>(error),
            },
    {
        encode_typed_row_tombstone_archive_snapshot(self)
    }

    /// Decodes a typed row tombstone snapshot from little-endian archive bytes.
    pub fn from_archive_bytes(bytes: &[u8]) -> (result: Result<Self, FSETypedRowTombstoneArchiveCodecError>)
        ensures
            match decoded_tombstone_ids(bytes@) {
                Ok(ids) => result matches Ok(snapshot) && snapshot.deleted_row_ids@ == ids,
                Err(error) => result == Err::<Self, FSETypedRowTombstoneArchiveCodecError>(error),
            },
    {
        decode_typed_row_tombstone_archive_snapshot(bytes)
    }
}

/// Cursor over the bytes of a typed row tombstone archive.
struct TypedRowTombstoneArchiveReader<'a> {
    bytes: &'a [u8],
    offset: usize,
}

impl<'a> TypedRowTombstoneArchiveReader<'a> {
    spec fn wf(&self) -> bool {
        &&& self.offset <= self.bytes@.len()
        &&& self.bytes@.len() <= usize::MAX
    }

    fn new(bytes: &'a [u8]) -> (reader: Self)
        ensures
            reader.wf(),
            reader.bytes == bytes,
            reader.offset == 0,
    {
        let _length = bytes.len();
        TypedRowTombstoneArchiveReader { bytes, offset: 0 }
    }

    fn remaining(&self) -> (remaining: usize)
        requires
            self.wf(),
        ensures
            remaining == self.bytes@.len() - self.offset,
    {
        self.bytes.len() - self.offset
    }

    /// Reads a `u64` count and then that many `u64` values.
    fn read_u64_vec(&mut self, field: &'static str) -> (result: Result<
        Vec<u64>,
        FSETypedRowTombstoneArchiveCodecError,
    >)
        requires
            old(self).wf(),
            old(self).offset == 0,
        ensures
            final(self).wf(),
            final(self).bytes == old(self).bytes,
            match decoded_tombstone_ids(old(self).bytes@) {
                Err(FSETypedRowTombstoneArchiveCodecError::UnexpectedEndOfArchive {
                    field: f,
                    needed,
                    remaining,
                }) => result == Err::<Vec<u64>, FSETypedRowTombstoneArchiveCodecError>(
                    FSETypedRowTombstoneArchiveCodecError::UnexpectedEndOfArchive {
                        field,
                        needed,
                        remaining,
                    },
                ),
                Err(FSETypedRowTombstoneArchiveCodecError::LengthOutOfRange { length, .. }) => result
                    == Err::<Vec<u64>, FSETypedRowTombstoneArchiveCodecError>(
                    FSETypedRowTombstoneArchiveCodecError::LengthOutOfRange { field, length },
                ),
                _ => {
                    let count = spec_u64_from_le_bytes(old(self).bytes@.subrange(0, 8));
                    &&& result matches Ok(values)
                    &&& values@.len() == count
                    &&& 8 + 8 * count <= old(self).bytes@.len()
                    &&& values@ == u64s_from_le_bytes(
                        old(self).bytes@.subrange(8, 8 + 8 * count),
                        count as nat,
                    )
                    &&& final(self).offset == 8 + 8 * count
                },
            },
    {
        let length = match self.read_len(field) {
            Ok(length) => length,
            Err(error) => return Err(error),
        };
        let byte_length = match length.checked_mul(8) {
            Some(byte_length) => byte_length,
            None => {
                return Err(
                    FSETypedRowTombstoneArchiveCodecError::LengthOutOfRange {
                        field,
                        length: length as u64,
                    },
                );
            },
        };
        if byte_length > self.remaining() {
            return Err(
                FSETypedRowTombstoneArchiveCodecError::UnexpectedEndOfArchive {
                    field,
                    needed: byte_length,
                    remaining: self.remaining(),
                },
            );
        }
        let ghost start = self.offset;
        let mut values: Vec<u64> = Vec::with_capacity(length);
        let mut index: usize = 0;
        while index < length
            invariant
                self.wf(),
                self.bytes == old(self).bytes,
                start == 8,
                start + 8 * length <= self.bytes@.len(),
                index <= length,
                self.offset == start + 8 * index,
                values@.len() == index,
                forall|i: int|
                    0 <= i < index ==> values@[i] == spec_u64_from_le_bytes(
                        self.bytes@.subrange(start + 8 * i, start + 8 * i + 8),
                    ),
            decreases length - index,
        {
            let value = match self.read_u64(field) {
                Ok(value) => value,
                Err(error) => return Err(error),
            };
            values.push(value);
            index = index + 1;
        }
        proof {
            let count = length as int;
            let region = self.bytes@.subrange(8, 8 + 8 * count);
            assert forall|i: int| 0 <= i < count implies values@[i] == spec_u64_from_le_bytes(
                region.subrange(8 * i, 8 * i + 8),
            ) by {
                assert(region.subrange(8 * i, 8 * i + 8) =~= self.bytes@.subrange(
                    8 + 8 * i,
                    8 + 8 * i + 8,
                ));
            }
            assert(values@ =~= u64s_from_le_bytes(region, count as nat));
        }
        Ok(values)
    }

    /// Reads a `u64` length and converts it to `usize`.
    fn read_len(&mut self, field: &'static str) -> (result: Result<usize, FSETypedRowTombstoneArchiveCodecError>)
        requires
            old(self).wf(),
        ensures
            final(self).wf(),
            final(self).bytes == old(self).bytes,
            old(self).offset + 8 > old(self).bytes@.len() ==> result == Err::<
                usize,
                FSETypedRowTombstoneArchiveCodecError,
            >(
                FSETypedRowTombstoneArchiveCodecError::UnexpectedEndOfArchive {
                    field,
                    needed: 8,
                    remaining: (old(self).bytes@.len() - old(self).offset) as usize,
                },
            ),
            old(self).offset + 8 <= old(self).bytes@.len() ==> {
                let length = spec_u64_from_le_bytes(
                    old(self).bytes@.subrange(old(self).offset as int, old(self).offset + 8),
                );
                &&& final(self).offset == old(self).offset + 8
                &&& length <= usize::MAX ==> result == Ok::<
                    usize,
                    FSETypedRowTombstoneArchiveCodecError,
                >(length as usize)
                &&& length > usize::MAX ==> result == Err::<
                    usize,
                    FSETypedRowTombstoneArchiveCodecError,
                >(FSETypedRowTombstoneArchiveCodecError::LengthOutOfRange { field, length })
            },
    {
        let length = match self.read_u64(field) {
            Ok(length) => length,
            Err(error) => return Err(error),
        };
        if length > usize::MAX as u64 {
            return Err(FSETypedRowTombstoneArchiveCodecError::LengthOutOfRange { field, length });
        }
        Ok(length as usize)
    }

    fn read_u64(&mut self, field: &'static str) -> (result: Result<u64, FSETypedRowTombstoneArchiveCodecError>)
        requires
            old(self).wf(),
        ensures
            final(self).wf(),
            final(self).bytes == old(self).bytes,
            old(self).offset + 8 <= old(self).bytes@.len() ==> {
                &&& result == Ok::<u64, FSETypedRowTombstoneArchiveCodecError>(
                    spec_u64_from_le_bytes(
                        old(self).bytes@.subrange(old(self).offset as int, old(self).offset + 8),
                    ),
                )
                &&& final(self).offset == old(self).offset + 8
            },
            old(self).offset + 8 > old(self).bytes@.len() ==> result == Err::<
                u64,
                FSETypedRowTombstoneArchiveCodecError,
            >(
                FSETypedRowTombstoneArchiveCodecError::UnexpectedEndOfArchive {
                    field,
                    needed: 8,
                    remaining: (old(self).bytes@.len() - old(self).offset) as usize,
                },
            ),
    {
        let bytes = match self.read_exact(field, 8) {
            Ok(bytes) => bytes,
            Err(error) => return Err(error),
        };
        Ok(u64_from_le_bytes(bytes))
    }

    fn read_exact(&mut self, field: &'static str, length: usize) -> (result: Result<
        &'a [u8],
        FSETypedRowTombstoneArchiveCodecError,
    >)
        requires
            old(self).wf(),
        ensures
            final(self).wf(),
            final(self).bytes == old(self).bytes,
            old(self).offset + length <= old(self).bytes@.len() ==> {
                &&& result matches Ok(slice)
                &&& slice@ == old(self).bytes@.subrange(
                    old(self).offset as int,
                    old(self).offset + length,
                )
                &&& final(self).offset == old(self).offset + length
            },
            old(self).offset + length > old(self).bytes@.len() ==> result == Err::<
                &'a [u8],
                FSETypedRowTombstoneArchiveCodecError,
            >(
                FSETypedRowTombstoneArchiveCodecError::UnexpectedEndOfArchive {
                    field,
                    needed: length,
                    remaining: (old(self).bytes@.len() - old(self).offset) as usize,
                },
            ),
    {
        let remaining = self.remaining();
        let end = match self.offset.checked_add(length) {
            Some(end) => end,
            None => {
                return Err(
                    FSETypedRowTombstoneArchiveCodecError::UnexpectedEndOfArchive {
                        field,
                        needed: length,
                        remaining,
                    },
                );
            },
        };
        if end > self.bytes.len() {
            return Err(
                FSETypedRowTombstoneArchiveCodecError::UnexpectedEndOfArchive {
                    field,
                    needed: length,
                    remaining,
                },
            );
        }
        let slice = &self.bytes[self.offset..end];
        self.offset = end;
        Ok(slice)
    }
}

/// Decoding the bytes that encoding produced gives back the same deleted row
/// identifiers, for every list without duplicates whose encoding fits in memory.
pub proof fn lemma_tombstone_codec_round_trip(ids: Seq<u64>)
    requires
        ids.no_duplicates(),
        8 + 8 * ids.len() <= usize::MAX,
    ensures
        encoded_tombstone_ids(ids) matches Ok(bytes) && decoded_tombstone_ids(bytes) == Ok::<
            Seq<u64>,
            FSETypedRowTombstoneArchiveCodecError,
        >(ids),
{
    let bytes = u64_vec_bytes(ids);
    lemma_auto_spec_u64_to_from_le_bytes();
    lemma_u64s_le_bytes(ids);
    lemma_u64s_round_trip(ids);
    assert(bytes.subrange(0, 8) =~= spec_u64_to_le_bytes(ids.len() as u64));
    assert(bytes.subrange(8, bytes.len() as int) =~= crate::bytes::u64s_le_bytes(ids));
}

} // verus!
