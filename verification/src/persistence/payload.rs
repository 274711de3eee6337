//! Payload metadata for `.fse` archive files.
//!
//! Every `.fse` file starts with an eight-byte marker, a little-endian `u32`
//! header version and a one-byte payload kind tag; the payload follows.
use vstd::bytes::*;
use vstd::prelude::*;

use crate::bytes::{write_bytes, write_u32, write_u8};

verus! {

/// Fixed byte marker written before every `.fse` archive file payload (`FSEPLD01`).
pub const FSE_ARCHIVE_PAYLOAD_MAGIC: [u8; 8] = [0x46, 0x53, 0x45, 0x50, 0x4c, 0x44, 0x30, 0x31];

/// Current `.fse` archive payload header version.
pub const FSE_ARCHIVE_PAYLOAD_HEADER_VERSION: u32 = 1;

/// Number of bytes in the file-level payload header.
pub const FSE_ARCHIVE_PAYLOAD_HEADER_LEN: usize = 13;

/// The payload marker as a byte sequence.
pub open spec fn payload_magic() -> Seq<u8> {
    seq![0x46u8, 0x53u8, 0x45u8, 0x50u8, 0x4cu8, 0x44u8, 0x30u8, 0x31u8]
}

/// Logical payload stored in an `.fse` archive file.
#[derive(Clone, Copy, Debug, PartialEq, Eq, Structural)]
pub enum FSEArchivePayloadKind {
    /// Numeric FSE index archive.
    Index,
    /// Row-mapped FSE index archive.
    RowMappedIndex,
    /// Typed record batch archive.
    TypedRecordBatch,
    /// Typed query index archive.
    TypedQueryIndex,
    /// Typed row tombstone archive.
    TypedRowTombstone,
}

/// The tag byte stored for a payload kind.
pub open spec fn payload_kind_tag(kind: FSEArchivePayloadKind) -> u8 {
    match kind {
        FSEArchivePayloadKind::Index => 1,
        FSEArchivePayloadKind::RowMappedIndex => 2,
        FSEArchivePayloadKind::TypedRecordBatch => 3,
        FSEArchivePayloadKind::TypedQueryIndex => 4,
        FSEArchivePayloadKind::TypedRowTombstone => 5,
    }
}

/// The payload kind named by a tag byte, if any.
pub open spec fn payload_kind_from_tag(tag: u8) -> Option<FSEArchivePayloadKind> {
    if tag == 1 {
        Some(FSEArchivePayloadKind::Index)
    } else if tag == 2 {
        Some(FSEArchivePayloadKind::RowMappedIndex)
    } else if tag == 3 {
        Some(FSEArchivePayloadKind::TypedRecordBatch)
    } else if tag == 4 {
        Some(FSEArchivePayloadKind::TypedQueryIndex)
    } else if tag == 5 {
        Some(FSEArchivePayloadKind::TypedRowTombstone)
    } else {
        None
    }
}

impl FSEArchivePayloadKind {
    fn tag(self) -> (tag: u8)
        ensures
            tag == payload_kind_tag(self),
    {
        match self {
            FSEArchivePayloadKind::Index => 1,
            FSEArchivePayloadKind::RowMappedIndex => 2,
            FSEArchivePayloadKind::TypedRecordBatch => 3,
            FSEArchivePayloadKind::TypedQueryIndex => 4,
            FSEArchivePayloadKind::TypedRowTombstone => 5,
        }
    }

    fn from_tag(tag: u8) -> (result: Result<Self, FSEArchivePayloadHeaderError>)
        ensures
            match payload_kind_from_tag(tag) {
                Some(kind) => result == Ok::<Self, FSEArchivePayloadHeaderError>(kind),
                None => result == Err::<Self, FSEArchivePayloadHeaderError>(
                    FSEArchivePayloadHeaderError::UnknownPayloadKind { value: tag },
                ),
            },
    {
        match tag {
            1 => Ok(FSEArchivePayloadKind::Index),
            2 => Ok(FSEArchivePayloadKind::RowMappedIndex),
            3 => Ok(FSEArchivePayloadKind::TypedRecordBatch),
            4 => Ok(FSEArchivePayloadKind::TypedQueryIndex),
            5 => Ok(FSEArchivePayloadKind::TypedRowTombstone),
            value => Err(FSEArchivePayloadHeaderError::UnknownPayloadKind { value }),
        }
    }
}

/// Error returned when an `.fse` archive payload header is invalid.
#[derive(Clone, Debug, PartialEq, Eq)]
pub enum FSEArchivePayloadHeaderError {
    /// The byte slice ended before a complete payload header field could be read.
    UnexpectedEndOfArchive {
        /// Header field being read.
        field: &'static str,
        /// Number of bytes required for the field.
        needed: usize,
        /// Number of bytes remaining in the input.
        remaining: usize,
    },
    /// The payload header marker did not match the FSE archive marker.
    InvalidPayloadMagic {
        /// Marker found in the input.
        actual: [u8; 8],
    },
    /// The payload header version is not supported by this runtime.
    UnsupportedPayloadHeaderVersion {
        /// Version found in the input.
        actual: u32,
        /// Version supported by this runtime.
        expected: u32,
    },
    /// The payload kind tag did not match a supported archive payload kind.
    UnknownPayloadKind {
        /// Raw payload kind tag found in the input.
        value: u8,
    },
    /// The payload kind does not match the archive reader.
    UnexpectedPayloadKind {
        /// Payload kind required by the archive reader.
        expected: FSEArchivePayloadKind,
        /// Payload kind found in the input.
        actual: FSEArchivePayloadKind,
    },
}

impl FSEArchivePayloadHeaderError {
    /// Returns the diagnostic message for the error.
    pub fn message(&self) -> (message: &'static str)
        ensures
            message == payload_header_error_message(*self),
    {
        match self {
            FSEArchivePayloadHeaderError::UnexpectedEndOfArchive { .. } => {
                "archive ended before the payload header field could be read"
            },
            FSEArchivePayloadHeaderError::InvalidPayloadMagic { .. } => {
                "archive payload header marker is invalid"
            },
            FSEArchivePayloadHeaderError::UnsupportedPayloadHeaderVersion { .. } => {
                "archive payload header version is not supported"
            },
            FSEArchivePayloadHeaderError::UnknownPayloadKind { .. } => {
                "archive payload kind tag is invalid"
            },
            FSEArchivePayloadHeaderError::UnexpectedPayloadKind { .. } => {
                "archive payload kind does not match the reader"
            },
        }
    }
}

/// The diagnostic message of a payload header error.
pub open spec fn payload_header_error_message(error: FSEArchivePayloadHeaderError) -> &'static str {
    match error {
        FSEArchivePayloadHeaderError::UnexpectedEndOfArchive { .. } => {
            "archive ended before the payload header field could be read"
        },
        FSEArchivePayloadHeaderError::InvalidPayloadMagic { .. } => {
            "archive payload header marker is invalid"
        },
        FSEArchivePayloadHeaderError::UnsupportedPayloadHeaderVersion { .. } => {
            "archive payload header version is not supported"
        },
        FSEArchivePayloadHeaderError::UnknownPayloadKind { .. } => {
            "archive payload kind tag is invalid"
        },
        FSEArchivePayloadHeaderError::UnexpectedPayloadKind { .. } => {
            "archive payload kind does not match the reader"
        },
    }
}

/// The header bytes written before a payload of the given kind.
pub open spec fn payload_header(kind: FSEArchivePayloadKind) -> Seq<u8> {
    payload_magic() + spec_u32_to_le_bytes(1u32) + seq![payload_kind_tag(kind)]
}

/// The bytes of an encoded archive payload.
pub open spec fn encoded_archive_payload(kind: FSEArchivePayloadKind, payload: Seq<u8>) -> Seq<u8> {
    payload_header(kind) + payload
}

/// What decoding an archive payload of the expected kind yields for the given bytes.
pub open spec fn decoded_archive_payload(
    expected_kind: FSEArchivePayloadKind,
    bytes: Seq<u8>,
) -> Result<Seq<u8>, FSEArchivePayloadHeaderError> {
    if bytes.len() < 8 {
        Err(
            FSEArchivePayloadHeaderError::UnexpectedEndOfArchive {
                field: "payload.magic",
                needed: 8,
                remaining: bytes.len() as usize,
            },
        )
    } else if bytes.subrange(0, 8) != payload_magic() {
        Err(FSEArchivePayloadHeaderError::InvalidPayloadMagic { actual: magic_array(bytes) })
    } else if bytes.len() < 12 {
        Err(
            FSEArchivePayloadHeaderError::UnexpectedEndOfArchive {
                field: "payload.header_version",
                needed: 4,
                remaining: (bytes.len() - 8) as usize,
            },
        )
    } else if spec_u32_from_le_bytes(bytes.subrange(8, 12)) != 1 {
        Err(
            FSEArchivePayloadHeaderError::UnsupportedPayloadHeaderVersion {
                actual: spec_u32_from_le_bytes(bytes.subrange(8, 12)),
                expected: 1,
            },
        )
    } else if bytes.len() < 13 {
        Err(
            FSEArchivePayloadHeaderError::UnexpectedEndOfArchive {
                field: "payload.kind",
                needed: 1,
                remaining: 0,
            },
        )
    } else {
        match payload_kind_from_tag(bytes[12]) {
            None => Err(FSEArchivePayloadHeaderError::UnknownPayloadKind { value: bytes[12] }),
            Some(actual) => if actual != expected_kind {
                Err(FSEArchivePayloadHeaderError::UnexpectedPayloadKind {
                    expected: expected_kind,
                    actual,
                })
            } else {
                Ok(bytes.subrange(13, bytes.len() as int))
            },
        }
    }
}

/// The first eight bytes of `bytes`, as an array.
pub open spec fn magic_array(bytes: Seq<u8>) -> [u8; 8] {
    [bytes[0], bytes[1], bytes[2], bytes[3], bytes[4], bytes[5], bytes[6], bytes[7]]
}

/// Encodes an archive payload with file-level payload metadata.
pub fn encode_archive_payload(kind: FSEArchivePayloadKind, payload: &[u8]) -> (bytes: Vec<u8>)
    ensures
        bytes@ == encoded_archive_payload(kind, payload@),
{
    let mut bytes: Vec<u8> = Vec::new();
    write_bytes(&mut bytes, FSE_ARCHIVE_PAYLOAD_MAGIC.as_slice());
    write_u32(&mut bytes, FSE_ARCHIVE_PAYLOAD_HEADER_VERSION);
    write_u8(&mut bytes, kind.tag());
    write_bytes(&mut bytes, payload);
    assert(FSE_ARCHIVE_PAYLOAD_MAGIC@ =~= payload_magic());
    assert(bytes@ =~= encoded_archive_payload(kind, payload@));
    bytes
}

/// Decodes an archive payload and verifies its file-level payload kind.
pub fn decode_archive_payload(expected_kind: FSEArchivePayloadKind, bytes: &[u8]) -> (result: Result<
    Vec<u8>,
    FSEArchivePayloadHeaderError,
>)
    ensures
        match decoded_archive_payload(expected_kind, bytes@) {
            Ok(payload) => result matches Ok(out) && out@ == payload,
            Err(error) => result == Err::<Vec<u8>, FSEArchivePayloadHeaderError>(error),
        },
{
    let mut reader = ArchivePayloadHeaderReader::new(bytes);
    let magic = match reader.read_magic("payload.magic") {
        Ok(magic) => magic,
        Err(error) => return Err(error),
    };
    if !magic_matches(&magic) {
        assert(magic =~= magic_array(bytes@));
        return Err(FSEArchivePayloadHeaderError::InvalidPayloadMagic { actual: magic });
    }
    let version = match reader.read_u32("payload.header_version") {
        Ok(version) => version,
        Err(error) => return Err(error),
    };
    if version != FSE_ARCHIVE_PAYLOAD_HEADER_VERSION {
        return Err(
            FSEArchivePayloadHeaderError::UnsupportedPayloadHeaderVersion {
                actual: version,
                expected: FSE_ARCHIVE_PAYLOAD_HEADER_VERSION,
            },
        );
    }
    let tag = match reader.read_u8("payload.kind") {
        Ok(tag) => tag,
        Err(error) => return Err(error),
    };
    let actual_kind = match FSEArchivePayloadKind::from_tag(tag) {
        Ok(kind) => kind,
        Err(error) => return Err(error),
    };
    if actual_kind != expected_kind {
        return Err(
            FSEArchivePayloadHeaderError::UnexpectedPayloadKind {
                expected: expected_kind,
                actual: actual_kind,
            },
        );
    }
    let payload = vstd::slice::slice_to_vec(reader.remaining_bytes());
    Ok(payload)
}

fn magic_matches(magic: &[u8; 8]) -> (matches: bool)
    ensures
        matches == (magic@ == payload_magic()),
{
    let expected = FSE_ARCHIVE_PAYLOAD_MAGIC;
    let mut index: usize = 0;
    while index < 8
        invariant
            index <= 8,
            expected@ == payload_magic(),
            forall|i: int| 0 <= i < index ==> magic@[i] == expected@[i],
        decreases 8 - index,
    {
        if magic[index] != expected[index] {
            return false;
        }
        index = index + 1;
    }
    assert(magic@ =~= payload_magic());
    true
}

/// Cursor over the bytes of an archive payload header.
struct ArchivePayloadHeaderReader<'a> {
    bytes: &'a [u8],
    offset: usize,
}

impl<'a> ArchivePayloadHeaderReader<'a> {
    spec fn wf(&self) -> bool {
        &&& self.offset <= self.bytes@.len()
        &&& self.bytes@.len() <= usize::MAX
    }

    fn new(bytes: &'a [u8]) -> (reader: Self)
        ensures
            reader.wf(),
            reader.bytes == bytes,
            reader.offset == 0,
    {
        let _length = bytes.len();
        ArchivePayloadHeaderReader { bytes, offset: 0 }
    }

    fn remaining(&self) -> (remaining: usize)
        requires
            self.wf(),
        ensures
            remaining == self.bytes@.len() - self.offset,
    {
        self.bytes.len() - self.offset
    }

    fn remaining_bytes(&self) -> (rest: &'a [u8])
        requires
            self.wf(),
        ensures
            rest@ == self.bytes@.subrange(self.offset as int, self.bytes@.len() as int),
    {
        &self.bytes[self.offset..self.bytes.len()]
    }

    fn read_magic(&mut self, field: &'static str) -> (result: Result<[u8; 8], FSEArchivePayloadHeaderError>)
        requires
            old(self).wf(),
        ensures
            final(self).wf(),
            final(self).bytes == old(self).bytes,
            old(self).offset + 8 <= old(self).bytes@.len() ==> {
                &&& result matches Ok(magic)
                &&& magic@ == old(self).bytes@.subrange(
                    old(self).offset as int,
                    old(self).offset + 8,
                )
                &&& final(self).offset == old(self).offset + 8
            },
            old(self).offset + 8 > old(self).bytes@.len() ==> result == Err::<
                [u8; 8],
                FSEArchivePayloadHeaderError,
            >(
                FSEArchivePayloadHeaderError::UnexpectedEndOfArchive {
                    field,
                    needed: 8,
                    remaining: (old(self).bytes@.len() - old(self).offset) as usize,
                },
            ),
    {
        let bytes = match self.read_exact(field, 8) {
            Ok(bytes) => bytes,
            Err(error) => return Err(error),
        };
        let magic = [bytes[0], bytes[1], bytes[2], bytes[3], bytes[4], bytes[5], bytes[6], bytes[7]];
        assert(magic@ =~= bytes@);
        Ok(magic)
    }

    fn read_u32(&mut self, field: &'static str) -> (result: Result<u32, FSEArchivePayloadHeaderError>)
        requires
            old(self).wf(),
        ensures
            final(self).wf(),
            final(self).bytes == old(self).bytes,
            old(self).offset + 4 <= old(self).bytes@.len() ==> {
                &&& result == Ok::<u32, FSEArchivePayloadHeaderError>(
                    spec_u32_from_le_bytes(
                        old(self).bytes@.subrange(old(self).offset as int, old(self).offset + 4),
                    ),
                )
                &&& final(self).offset == old(self).offset + 4
            },
            old(self).offset + 4 > old(self).bytes@.len() ==> result == Err::<
                u32,
                FSEArchivePayloadHeaderError,
            >(
                FSEArchivePayloadHeaderError::UnexpectedEndOfArchive {
                    field,
                    needed: 4,
                    remaining: (old(self).bytes@.len() - old(self).offset) as usize,
                },
            ),
    {
        let bytes = match self.read_exact(field, 4) {
            Ok(bytes) => bytes,
            Err(error) => return Err(error),
        };
        Ok(u32_from_le_bytes(bytes))
    }

    fn read_u8(&mut self, field: &'static str) -> (result: Result<u8, FSEArchivePayloadHeaderError>)
        requires
            old(self).wf(),
        ensures
            final(self).wf(),
            final(self).bytes == old(self).bytes,
            old(self).offset + 1 <= old(self).bytes@.len() ==> {
                &&& result == Ok::<u8, FSEArchivePayloadHeaderError>(
                    old(self).bytes@[old(self).offset as int],
                )
                &&& final(self).offset == old(self).offset + 1
            },
            old(self).offset + 1 > old(self).bytes@.len() ==> result == Err::<
                u8,
                FSEArchivePayloadHeaderError,
            >(
                FSEArchivePayloadHeaderError::UnexpectedEndOfArchive {
                    field,
                    needed: 1,
                    remaining: (old(self).bytes@.len() - old(self).offset) as usize,
                },
            ),
    {
        let bytes = match self.read_exact(field, 1) {
            Ok(bytes) => bytes,
            Err(error) => return Err(error),
        };
        Ok(bytes[0])
    }

    fn read_exact(&mut self, field: &'static str, length: usize) -> (result: Result<
        &'a [u8],
        FSEArchivePayloadHeaderError,
    >)
        requires
            old(self).wf(),
        ensures
            final(self).wf(),
            final(self).bytes == old(self).bytes,
            old(self).offset + length <= old(self).bytes@.len() ==> {
                &&& result matches Ok(slice)
                &&& slice@ == old(self).bytes@.subrange(
                    old(self).offset as int,
                    old(self).offset + length,
                )
                &&& final(self).offset == old(self).offset + length
            },
            old(self).offset + length > old(self).bytes@.len() ==> {
                &&& result == Err::<&'a [u8], FSEArchivePayloadHeaderError>(
                    FSEArchivePayloadHeaderError::UnexpectedEndOfArchive {
                        field,
                        needed: length,
                        remaining: (old(self).bytes@.len() - old(self).offset) as usize,
                    },
                )
                &&& final(self).offset == old(self).offset
            },
    {
        let remaining = self.remaining();
        let end = match self.offset.checked_add(length) {
            Some(end) => end,
            None => {
                return Err(
                    FSEArchivePayloadHeaderError::UnexpectedEndOfArchive {
                        field,
                        needed: length,
                        remaining,
                    },
                );
            },
        };
        if end > self.bytes.len() {
            return Err(
                FSEArchivePayloadHeaderError::UnexpectedEndOfArchive {
                    field,
                    needed: length,
                    remaining,
                },
            );
        }
        let slice = &self.bytes[self.offset..end];
        self.offset = end;
        Ok(slice)
    }
}

/// Decoding what `encode_archive_payload` wrote for a kind gives back the payload.
pub proof fn lemma_archive_payload_round_trip(kind: FSEArchivePayloadKind, payload: Seq<u8>)
    ensures
        decoded_archive_payload(kind, encoded_archive_payload(kind, payload)) == Ok::<
            Seq<u8>,
            FSEArchivePayloadHeaderError,
        >(payload),
{
    let bytes = encoded_archive_payload(kind, payload);
    lemma_auto_spec_u32_to_from_le_bytes();
    assert(bytes.subrange(0, 8) =~= payload_magic());
    assert(bytes.subrange(8, 12) =~= spec_u32_to_le_bytes(1u32));
    assert(bytes[12] == payload_kind_tag(kind));
    assert(bytes.subrange(13, bytes.len() as int) =~= payload);
}

/// A payload written for one kind is refused by a reader that expects another kind.
pub proof fn lemma_archive_payload_kind_mismatch(
    written: FSEArchivePayloadKind,
    expected: FSEArchivePayloadKind,
    payload: Seq<u8>,
)
    requires
        written != expected,
    ensures
        decoded_archive_payload(expected, encoded_archive_payload(written, payload)) == Err::<
            Seq<u8>,
            FSEArchivePayloadHeaderError,
        >(FSEArchivePayloadHeaderError::UnexpectedPayloadKind { expected, actual: written }),
{
    let bytes = encoded_archive_payload(written, payload);
    lemma_auto_spec_u32_to_from_le_bytes();
    assert(bytes.subrange(0, 8) =~= payload_magic());
    assert(bytes.subrange(8, 12) =~= spec_u32_to_le_bytes(1u32));
    assert(bytes[12] == payload_kind_tag(written));
}

} // verus!
