//! Logical byte footprint of typed query index archives.
use vstd::prelude::*;
use vstd::std_specs::convert::FromSpecImpl;

use crate::encoding::metadata::{FSEFieldEncoderMetadata, FSERecordEncoderMetadata};

use super::archive_file::FSEArchiveFileOperation;
use super::batch_section::{batch_section_bytes, encode_typed_query_index_record_batch_section};
use super::batch_section::{records_have_field_count, snapshot_counts_fit};
use super::payload::{
    payload_header, decode_archive_payload, decoded_archive_payload, encoded_archive_payload,
    lemma_archive_payload_round_trip, payload_header_error_message, FSEArchivePayloadHeaderError,
    FSEArchivePayloadKind,
};
use super::query_index_layout::{
    decode_typed_query_index_archive_parts, typed_query_index_archive_bytes,
    typed_query_index_archive_of,
};
use super::record_batch::FSERecordBatchArchiveSnapshot;
use super::query_index_codec::{
    field_encoder_metadata_bytes, field_encoders_bytes, lemma_matching_encoders_encode_alike,
    record_encoder_metadata_bytes,
    query_index_codec_error_message, string_fields_bytes, FSETypedQueryIndexArchiveCodecError,
};

use super::query_index_codec::query_index_codec_error_text;
use crate::text::owned_text;

verus! {

/// Number of length-prefixed sections in a typed query index payload.
pub const TYPED_QUERY_INDEX_SECTION_COUNT: u64 = 3;

/// Archive component included in a typed query index logical footprint report.
#[derive(Clone, Copy, Debug, PartialEq, Eq, Structural)]
pub enum FSETypedQueryIndexArchiveFootprintComponent {
    /// Typed query index archive file.
    QueryIndex,
    /// Typed record batch append archive file.
    AppendDelta,
    /// Typed row tombstone archive file.
    Tombstones,
}

/// Human-readable name of a footprint component.
pub open spec fn component_name(component: FSETypedQueryIndexArchiveFootprintComponent) -> &'static str {
    match component {
        FSETypedQueryIndexArchiveFootprintComponent::QueryIndex => "typed query index archive",
        FSETypedQueryIndexArchiveFootprintComponent::AppendDelta => {
            "typed record batch append archive"
        },
        FSETypedQueryIndexArchiveFootprintComponent::Tombstones => "typed row tombstone archive",
    }
}

impl FSETypedQueryIndexArchiveFootprintComponent {
    /// Returns the human-readable name of the component.
    pub fn name(self) -> (name: &'static str)
        ensures
            name == component_name(self),
    {
        match self {
            FSETypedQueryIndexArchiveFootprintComponent::QueryIndex => "typed query index archive",
            FSETypedQueryIndexArchiveFootprintComponent::AppendDelta => {
                "typed record batch append archive"
            },
            FSETypedQueryIndexArchiveFootprintComponent::Tombstones => {
                "typed row tombstone archive"
            },
        }
    }
}

/// Error returned when typed query index archive footprint reporting fails.
#[derive(Clone, Debug, PartialEq, Eq)]
pub enum FSETypedQueryIndexArchiveFootprintError {
    /// The path does not use the `.fse` archive extension.
    InvalidFileExtension {
        /// Archive component associated with the path.
        component: FSETypedQueryIndexArchiveFootprintComponent,
        /// Path provided by the caller.
        path: std::path::PathBuf,
    },
    /// A filesystem operation failed.
    Io {
        /// Archive component associated with the operation.
        component: FSETypedQueryIndexArchiveFootprintComponent,
        /// Operation that failed.
        operation: FSEArchiveFileOperation,
        /// Path used by the operation.
        path: std::path::PathBuf,
        /// Operating-system error kind.
        kind: std::io::ErrorKind,
    },
    /// The logical archive byte total exceeded `u64::MAX`.
    TotalArchiveByteCountOverflow {
        /// Bytes in the typed query index archive.
        query_index_archive_bytes: u64,
        /// Bytes in the typed record batch append archive.
        append_delta_archive_bytes: u64,
        /// Bytes in the typed row tombstone archive.
        tombstone_archive_bytes: u64,
    },
    /// File-level archive payload decoding failed.
    Payload(FSEArchivePayloadHeaderError),
    /// Typed query index archive encoding or decoding failed.
    TypedQueryIndexArchive(FSETypedQueryIndexArchiveCodecError),
    /// Record encoder metadata byte counting overflowed.
    RecordEncoderMetadataByteCountOverflow,
    /// The typed query index section byte total exceeded `u64::MAX`.
    SectionByteCountOverflow {
        /// Bytes in the file-level archive payload header.
        payload_header_bytes: u64,
        /// Bytes in the embedded row-mapped index section.
        row_mapped_index_section_bytes: u64,
        /// Bytes in the embedded typed record batch section.
        typed_record_batch_section_bytes: u64,
        /// Bytes in the embedded record encoder metadata section.
        record_encoder_metadata_section_bytes: u64,
        /// Bytes used by section length prefixes.
        section_framing_bytes: u64,
    },
    /// The computed section total did not match the archive file length.
    ArchiveByteCountMismatch {
        /// Path provided by the caller.
        path: std::path::PathBuf,
        /// Bytes in the archive file.
        file_bytes: u64,
        /// Bytes computed from the decoded archive sections.
        section_total_bytes: u64,
    },
}

/// Diagnostic text of a footprint error.
pub open spec fn footprint_error_message(error: FSETypedQueryIndexArchiveFootprintError) -> &'static str {
    match error {
        FSETypedQueryIndexArchiveFootprintError::InvalidFileExtension { component, .. } => match component {
                FSETypedQueryIndexArchiveFootprintComponent::QueryIndex => "typed query index archive footprint path must use the .fse extension",
                FSETypedQueryIndexArchiveFootprintComponent::AppendDelta => "typed record batch append archive footprint path must use the .fse extension",
                FSETypedQueryIndexArchiveFootprintComponent::Tombstones => "typed row tombstone archive footprint path must use the .fse extension",
            },
        FSETypedQueryIndexArchiveFootprintError::Io { component, operation, .. } => match operation {
            FSEArchiveFileOperation::Read => match component {
                    FSETypedQueryIndexArchiveFootprintComponent::QueryIndex => "failed to read typed query index archive footprint file",
                    FSETypedQueryIndexArchiveFootprintComponent::AppendDelta => "failed to read typed record batch append archive footprint file",
                    FSETypedQueryIndexArchiveFootprintComponent::Tombstones => "failed to read typed row tombstone archive footprint file",
                },
            FSEArchiveFileOperation::Write => match component {
                    FSETypedQueryIndexArchiveFootprintComponent::QueryIndex => "failed to write typed query index archive footprint file",
                    FSETypedQueryIndexArchiveFootprintComponent::AppendDelta => "failed to write typed record batch append archive footprint file",
                    FSETypedQueryIndexArchiveFootprintComponent::Tombstones => "failed to write typed row tombstone archive footprint file",
                },
            },
        FSETypedQueryIndexArchiveFootprintError::TotalArchiveByteCountOverflow { .. } => "typed query index logical archive footprint overflowed",
        FSETypedQueryIndexArchiveFootprintError::Payload(error) => payload_header_error_message(error),
        FSETypedQueryIndexArchiveFootprintError::TypedQueryIndexArchive(error) => query_index_codec_error_message(error),
        FSETypedQueryIndexArchiveFootprintError::RecordEncoderMetadataByteCountOverflow => "record encoder metadata footprint overflowed",
        FSETypedQueryIndexArchiveFootprintError::SectionByteCountOverflow { .. } => "typed query index archive section footprint overflowed",
        FSETypedQueryIndexArchiveFootprintError::ArchiveByteCountMismatch { .. } => "typed query index archive section bytes do not match file bytes",
    }
}

impl FSETypedQueryIndexArchiveFootprintError {
    /// Returns the diagnostic message for the error.
    pub fn message(&self) -> (message: &'static str)
        ensures
            message == footprint_error_message(*self),
    {
        match self {
            FSETypedQueryIndexArchiveFootprintError::InvalidFileExtension { component, .. } => match component {
                    FSETypedQueryIndexArchiveFootprintComponent::QueryIndex => "typed query index archive footprint path must use the .fse extension",
                    FSETypedQueryIndexArchiveFootprintComponent::AppendDelta => "typed record batch append archive footprint path must use the .fse extension",
                    FSETypedQueryIndexArchiveFootprintComponent::Tombstones => "typed row tombstone archive footprint path must use the .fse extension",
                },
            FSETypedQueryIndexArchiveFootprintError::Io { component, operation, .. } => match operation {
                FSEArchiveFileOperation::Read => match component {
                        FSETypedQueryIndexArchiveFootprintComponent::QueryIndex => "failed to read typed query index archive footprint file",
                        FSETypedQueryIndexArchiveFootprintComponent::AppendDelta => "failed to read typed record batch append archive footprint file",
                        FSETypedQueryIndexArchiveFootprintComponent::Tombstones => "failed to read typed row tombstone archive footprint file",
                    },
                FSEArchiveFileOperation::Write => match component {
                        FSETypedQueryIndexArchiveFootprintComponent::QueryIndex => "failed to write typed query index archive footprint file",
                        FSETypedQueryIndexArchiveFootprintComponent::AppendDelta => "failed to write typed record batch append archive footprint file",
                        FSETypedQueryIndexArchiveFootprintComponent::Tombstones => "failed to write typed row tombstone archive footprint file",
                    },
                },
            FSETypedQueryIndexArchiveFootprintError::TotalArchiveByteCountOverflow { .. } => "typed query index logical archive footprint overflowed",
            FSETypedQueryIndexArchiveFootprintError::Payload(error) => error.message(),
            FSETypedQueryIndexArchiveFootprintError::TypedQueryIndexArchive(error) => error.message(),
            FSETypedQueryIndexArchiveFootprintError::RecordEncoderMetadataByteCountOverflow => "record encoder metadata footprint overflowed",
            FSETypedQueryIndexArchiveFootprintError::SectionByteCountOverflow { .. } => "typed query index archive section footprint overflowed",
            FSETypedQueryIndexArchiveFootprintError::ArchiveByteCountMismatch { .. } => "typed query index archive section bytes do not match file bytes",
        }
    }
}

/// Diagnostic text of an error of type `FSETypedQueryIndexArchiveFootprintError`, carrying the values that the
/// wrapped errors name.
pub open spec fn footprint_error_text(error: FSETypedQueryIndexArchiveFootprintError) -> Seq<char> {
    match error {
        FSETypedQueryIndexArchiveFootprintError::TypedQueryIndexArchive(error) => query_index_codec_error_text(error),
        _ => footprint_error_message(error)@,
    }
}

impl FSETypedQueryIndexArchiveFootprintError {
    /// Returns the diagnostic text for the error, carrying the values that the
    /// wrapped errors name.
    pub fn description(&self) -> (text: String)
        ensures
            text@ == footprint_error_text(*self),
    {
        match self {
            FSETypedQueryIndexArchiveFootprintError::TypedQueryIndexArchive(error) => error.description(),
            _ => owned_text(self.message()),
        }
    }
}

impl From<FSEArchivePayloadHeaderError> for FSETypedQueryIndexArchiveFootprintError {
    fn from(error: FSEArchivePayloadHeaderError) -> (converted: Self) {
        FSETypedQueryIndexArchiveFootprintError::Payload(error)
    }
}

impl FromSpecImpl<FSEArchivePayloadHeaderError> for FSETypedQueryIndexArchiveFootprintError {
    open spec fn obeys_from_spec() -> bool {
        true
    }

    open spec fn from_spec(error: FSEArchivePayloadHeaderError) -> Self {
        FSETypedQueryIndexArchiveFootprintError::Payload(error)
    }
}

impl From<FSETypedQueryIndexArchiveCodecError> for FSETypedQueryIndexArchiveFootprintError {
    fn from(error: FSETypedQueryIndexArchiveCodecError) -> (converted: Self) {
        FSETypedQueryIndexArchiveFootprintError::TypedQueryIndexArchive(error)
    }
}

impl FromSpecImpl<FSETypedQueryIndexArchiveCodecError> for FSETypedQueryIndexArchiveFootprintError {
    open spec fn obeys_from_spec() -> bool {
        true
    }

    open spec fn from_spec(error: FSETypedQueryIndexArchiveCodecError) -> Self {
        FSETypedQueryIndexArchiveFootprintError::TypedQueryIndexArchive(error)
    }
}

/// Byte footprint for the sections embedded in a typed query index archive file:
/// the payload header, row-mapped index section, typed record batch section,
/// record encoder metadata section, and section length-prefix overhead.
#[derive(Clone, Copy, Debug, PartialEq, Eq, Structural)]
pub struct FSETypedQueryIndexArchiveSectionFootprint {
    /// Bytes in the file-level archive payload header.
    pub payload_header_bytes: u64,
    /// Bytes in the typed query index payload after the file-level header.
    pub typed_query_index_payload_bytes: u64,
    /// Bytes in the embedded row-mapped geometric index section.
    pub row_mapped_index_section_bytes: u64,
    /// Bytes in the embedded typed record batch section.
    pub typed_record_batch_section_bytes: u64,
    /// Bytes in the embedded record encoder metadata section.
    pub record_encoder_metadata_section_bytes: u64,
    /// Bytes used by section length prefixes inside the typed query index payload.
    pub section_framing_bytes: u64,
    /// Total bytes represented by the `.fse` archive file.
    pub total_archive_bytes: u64,
}

/// The section footprint report for the given byte counts: the payload is the
/// sum of the three sections and their framing, and the total adds the payload
/// header; the overflow error when the total exceeds `u64::MAX`.
pub open spec fn section_footprint_of(
    payload_header_bytes: u64,
    row_mapped_index_section_bytes: u64,
    typed_record_batch_section_bytes: u64,
    record_encoder_metadata_section_bytes: u64,
    section_framing_bytes: u64,
) -> Result<FSETypedQueryIndexArchiveSectionFootprint, FSETypedQueryIndexArchiveFootprintError> {
    let payload = row_mapped_index_section_bytes + typed_record_batch_section_bytes
        + record_encoder_metadata_section_bytes + section_framing_bytes;
    if payload_header_bytes + payload <= u64::MAX {
        Ok(
            FSETypedQueryIndexArchiveSectionFootprint {
                payload_header_bytes,
                typed_query_index_payload_bytes: payload as u64,
                row_mapped_index_section_bytes,
                typed_record_batch_section_bytes,
                record_encoder_metadata_section_bytes,
                section_framing_bytes,
                total_archive_bytes: (payload_header_bytes + payload) as u64,
            },
        )
    } else {
        Err(
            FSETypedQueryIndexArchiveFootprintError::SectionByteCountOverflow {
                payload_header_bytes,
                row_mapped_index_section_bytes,
                typed_record_batch_section_bytes,
                record_encoder_metadata_section_bytes,
                section_framing_bytes,
            },
        )
    }
}

impl FSETypedQueryIndexArchiveSectionFootprint {
    /// Creates a section footprint report: the payload is the sum of the three
    /// sections and their framing, and the total adds the payload header.
    pub fn try_new(
        payload_header_bytes: u64,
        row_mapped_index_section_bytes: u64,
        typed_record_batch_section_bytes: u64,
        record_encoder_metadata_section_bytes: u64,
        section_framing_bytes: u64,
    ) -> (result: Result<Self, FSETypedQueryIndexArchiveFootprintError>)
        ensures
            result == section_footprint_of(
                payload_header_bytes,
                row_mapped_index_section_bytes,
                typed_record_batch_section_bytes,
                record_encoder_metadata_section_bytes,
                section_framing_bytes,
            ),
    {
        let overflow = FSETypedQueryIndexArchiveFootprintError::SectionByteCountOverflow {
            payload_header_bytes,
            row_mapped_index_section_bytes,
            typed_record_batch_section_bytes,
            record_encoder_metadata_section_bytes,
            section_framing_bytes,
        };
        let first = match row_mapped_index_section_bytes.checked_add(
            typed_record_batch_section_bytes,
        ) {
            Some(total) => total,
            None => return Err(overflow),
        };
        let second = match first.checked_add(record_encoder_metadata_section_bytes) {
            Some(total) => total,
            None => return Err(overflow),
        };
        let embedded_section_bytes = match second.checked_add(section_framing_bytes) {
            Some(total) => total,
            None => return Err(overflow),
        };
        let total_archive_bytes = match payload_header_bytes.checked_add(embedded_section_bytes) {
            Some(total) => total,
            None => return Err(overflow),
        };
        Ok(
            FSETypedQueryIndexArchiveSectionFootprint {
                payload_header_bytes,
                typed_query_index_payload_bytes: embedded_section_bytes,
                row_mapped_index_section_bytes,
                typed_record_batch_section_bytes,
                record_encoder_metadata_section_bytes,
                section_framing_bytes,
                total_archive_bytes,
            },
        )
    }
}

/// Byte footprint for a logical typed query index archive: the typed query index
/// archive, append-delta archive, and active tombstone archive counted together.
#[derive(Clone, Copy, Debug, PartialEq, Eq, Structural)]
pub struct FSETypedQueryIndexArchiveFootprint {
    /// Bytes in the typed query index archive file.
    pub query_index_archive_bytes: u64,
    /// Bytes in the typed record batch append archive file.
    pub append_delta_archive_bytes: u64,
    /// Bytes in the typed row tombstone archive file.
    pub tombstone_archive_bytes: u64,
    /// Combined bytes for all required archive components.
    pub total_archive_bytes: u64,
}

/// The footprint report of the three component sizes, or the overflow error
/// when their sum exceeds `u64::MAX`.
pub open spec fn footprint_of(query_index: u64, append_delta: u64, tombstones: u64) -> Result<
    FSETypedQueryIndexArchiveFootprint,
    FSETypedQueryIndexArchiveFootprintError,
> {
    if query_index + append_delta + tombstones <= u64::MAX {
        Ok(
            FSETypedQueryIndexArchiveFootprint {
                query_index_archive_bytes: query_index,
                append_delta_archive_bytes: append_delta,
                tombstone_archive_bytes: tombstones,
                total_archive_bytes: (query_index + append_delta + tombstones) as u64,
            },
        )
    } else {
        Err(
            FSETypedQueryIndexArchiveFootprintError::TotalArchiveByteCountOverflow {
                query_index_archive_bytes: query_index,
                append_delta_archive_bytes: append_delta,
                tombstone_archive_bytes: tombstones,
            },
        )
    }
}

impl FSETypedQueryIndexArchiveFootprint {
    /// Creates a logical archive footprint report without an append-delta archive.
    pub fn try_new(query_index_archive_bytes: u64, tombstone_archive_bytes: u64) -> (result: Result<
        Self,
        FSETypedQueryIndexArchiveFootprintError,
    >)
        ensures
            result == footprint_of(query_index_archive_bytes, 0, tombstone_archive_bytes),
    {
        Self::try_new_with_append_delta(query_index_archive_bytes, 0, tombstone_archive_bytes)
    }

    /// Creates a logical archive footprint report with an append-delta archive.
    pub fn try_new_with_append_delta(
        query_index_archive_bytes: u64,
        append_delta_archive_bytes: u64,
        tombstone_archive_bytes: u64,
    ) -> (result: Result<Self, FSETypedQueryIndexArchiveFootprintError>)
        ensures
            result == footprint_of(
                query_index_archive_bytes,
                append_delta_archive_bytes,
                tombstone_archive_bytes,
            ),
    {
        let overflow = FSETypedQueryIndexArchiveFootprintError::TotalArchiveByteCountOverflow {
            query_index_archive_bytes,
            append_delta_archive_bytes,
            tombstone_archive_bytes,
        };
        let query_and_append_bytes = match query_index_archive_bytes.checked_add(
            append_delta_archive_bytes,
        ) {
            Some(total) => total,
            None => return Err(overflow),
        };
        let total_archive_bytes = match query_and_append_bytes.checked_add(tombstone_archive_bytes) {
            Some(total) => total,
            None => return Err(overflow),
        };
        Ok(
            FSETypedQueryIndexArchiveFootprint {
                query_index_archive_bytes,
                append_delta_archive_bytes,
                tombstone_archive_bytes,
                total_archive_bytes,
            },
        )
    }

    /// Returns true when the footprint includes an append-delta archive.
    pub fn includes_append_delta_archive(&self) -> (included: bool)
        ensures
            included == (self.append_delta_archive_bytes > 0),
    {
        self.append_delta_archive_bytes > 0
    }

    /// Returns true when the footprint includes a tombstone archive.
    pub fn includes_tombstone_archive(&self) -> (included: bool)
        ensures
            included == (self.tombstone_archive_bytes > 0),
    {
        self.tombstone_archive_bytes > 0
    }
}

/// A reported footprint's total is the sum of its component sizes, whatever the
/// order in which the components were measured.
pub proof fn lemma_footprint_total(query_index: u64, append_delta: u64, tombstones: u64)
    ensures
        footprint_of(query_index, append_delta, tombstones) matches Ok(footprint) ==> {
            &&& footprint.total_archive_bytes == footprint.query_index_archive_bytes
                + footprint.append_delta_archive_bytes + footprint.tombstone_archive_bytes
            &&& footprint.query_index_archive_bytes == query_index
            &&& footprint.append_delta_archive_bytes == append_delta
            &&& footprint.tombstone_archive_bytes == tombstones
        },
        footprint_of(query_index, append_delta, tombstones) is Ok <==> footprint_of(
            tombstones,
            append_delta,
            query_index,
        ) is Ok,
{
}

/// Bytes of the file-level payload header of a typed query index archive: the
/// magic, the header version and the payload kind, as `encode_archive_payload`
/// writes them.
pub fn archive_payload_header_byte_count() -> (count: u64)
    ensures
        count == 13,
        count == payload_header(FSEArchivePayloadKind::TypedQueryIndex).len(),
{
    proof {
        vstd::bytes::lemma_auto_spec_u32_to_from_le_bytes();
    }
    8 + 4 + 1
}

/// Bytes used by the length prefixes of the typed query index payload sections.
pub fn typed_query_index_section_framing_byte_count() -> (count: u64)
    ensures
        count == TYPED_QUERY_INDEX_SECTION_COUNT * 8,
{
    TYPED_QUERY_INDEX_SECTION_COUNT * 8
}

proof fn lemma_string_fields_len_step(texts: Seq<String>, index: int)
    requires
        0 <= index < texts.len(),
    ensures
        string_fields_bytes(texts.subrange(0, index + 1)).len() == string_fields_bytes(
            texts.subrange(0, index),
        ).len() + 8 + vstd::utf8::encode_utf8(texts[index]@).len(),
{
    vstd::bytes::lemma_auto_spec_u64_to_from_le_bytes();
    assert(texts.subrange(0, index + 1).drop_last() =~= texts.subrange(0, index));
}

/// Returns the number of bytes that one field encoder metadata record occupies
/// in the record encoder metadata section.
pub fn field_encoder_metadata_archive_byte_count(metadata: &FSEFieldEncoderMetadata) -> (result:
    Result<u64, FSETypedQueryIndexArchiveFootprintError>)
    ensures
        field_encoder_metadata_bytes(*metadata).len() <= u64::MAX ==> result == Ok::<
            u64,
            FSETypedQueryIndexArchiveFootprintError,
        >(field_encoder_metadata_bytes(*metadata).len() as u64),
        field_encoder_metadata_bytes(*metadata).len() > u64::MAX ==> result == Err::<
            u64,
            FSETypedQueryIndexArchiveFootprintError,
        >(FSETypedQueryIndexArchiveFootprintError::RecordEncoderMetadataByteCountOverflow),
{
    proof {
        vstd::bytes::lemma_auto_spec_u64_to_from_le_bytes();
    }
    match metadata {
        FSEFieldEncoderMetadata::Integer
        | FSEFieldEncoderMetadata::Float
        | FSEFieldEncoderMetadata::Boolean
        | FSEFieldEncoderMetadata::TimestampMillis => Ok(1),
        FSEFieldEncoderMetadata::CategoryDictionary { categories } => {
            let mut total: u64 = 1 + 8;
            let mut index: usize = 0;
            assert(categories@.subrange(0, 0) =~= Seq::<String>::empty());
            while index < categories.len()
                invariant
                    field_encoder_metadata_bytes(*metadata).len() == 9 + string_fields_bytes(
                        categories@,
                    ).len(),
                    index <= categories@.len(),
                    total == 9 + string_fields_bytes(categories@.subrange(0, index as int)).len(),
                decreases categories@.len() - index,
            {
                proof {
                    lemma_string_fields_len_step(categories@, index as int);
                    lemma_string_fields_prefix_len(categories@, index + 1);
                }
                let category_len = categories[index].as_str().as_bytes().len() as u64;
                let category_bytes = match 8u64.checked_add(category_len) {
                    Some(bytes) => bytes,
                    None => {
                        return Err(
                            FSETypedQueryIndexArchiveFootprintError::RecordEncoderMetadataByteCountOverflow,
                        );
                    },
                };
                total = match total.checked_add(category_bytes) {
                    Some(next) => next,
                    None => {
                        return Err(
                            FSETypedQueryIndexArchiveFootprintError::RecordEncoderMetadataByteCountOverflow,
                        );
                    },
                };
                index = index + 1;
            }
            assert(categories@.subrange(0, categories@.len() as int) =~= categories@);
            Ok(total)
        },
    }
}

proof fn lemma_string_fields_prefix_len(texts: Seq<String>, count: int)
    requires
        0 <= count <= texts.len(),
    ensures
        string_fields_bytes(texts.subrange(0, count)).len() <= string_fields_bytes(texts).len(),
    decreases texts.len() - count,
{
    if count < texts.len() {
        lemma_string_fields_prefix_len(texts, count + 1);
        assert(texts.subrange(0, count + 1).drop_last() =~= texts.subrange(0, count));
    } else {
        assert(texts.subrange(0, count) =~= texts);
    }
}

proof fn lemma_field_encoders_prefix_len(fields: Seq<FSEFieldEncoderMetadata>, count: int)
    requires
        0 <= count <= fields.len(),
    ensures
        field_encoders_bytes(fields.subrange(0, count)).len() <= field_encoders_bytes(fields).len(),
    decreases fields.len() - count,
{
    if count < fields.len() {
        lemma_field_encoders_prefix_len(fields, count + 1);
        assert(fields.subrange(0, count + 1).drop_last() =~= fields.subrange(0, count));
    } else {
        assert(fields.subrange(0, count) =~= fields);
    }
}

/// Returns the number of bytes of the record encoder metadata section, which is
/// the length of its encoding.
pub fn record_encoder_metadata_archive_byte_count(metadata: &FSERecordEncoderMetadata) -> (result:
    Result<u64, FSETypedQueryIndexArchiveFootprintError>)
    ensures
        record_encoder_metadata_bytes(metadata@).len() <= u64::MAX ==> result == Ok::<
            u64,
            FSETypedQueryIndexArchiveFootprintError,
        >(record_encoder_metadata_bytes(metadata@).len() as u64),
        record_encoder_metadata_bytes(metadata@).len() > u64::MAX ==> result == Err::<
            u64,
            FSETypedQueryIndexArchiveFootprintError,
        >(FSETypedQueryIndexArchiveFootprintError::RecordEncoderMetadataByteCountOverflow),
{
    proof {
        vstd::bytes::lemma_auto_spec_u64_to_from_le_bytes();
    }
    let fields = metadata.fields();
    let mut total: u64 = 8;
    let mut index: usize = 0;
    assert(fields@.subrange(0, 0) =~= Seq::<FSEFieldEncoderMetadata>::empty());
    while index < fields.len()
        invariant
            fields@ == metadata@,
            record_encoder_metadata_bytes(metadata@).len() == 8 + field_encoders_bytes(
                fields@,
            ).len(),
            index <= fields@.len(),
            total == 8 + field_encoders_bytes(fields@.subrange(0, index as int)).len(),
        decreases fields@.len() - index,
    {
        proof {
            assert(fields@.subrange(0, index + 1).drop_last() =~= fields@.subrange(0, index as int));
            lemma_field_encoders_prefix_len(fields@, index + 1);
        }
        let field_bytes = match field_encoder_metadata_archive_byte_count(&fields[index]) {
            Ok(bytes) => bytes,
            Err(error) => return Err(error),
        };
        total = match total.checked_add(field_bytes) {
            Some(next) => next,
            None => {
                return Err(
                    FSETypedQueryIndexArchiveFootprintError::RecordEncoderMetadataByteCountOverflow,
                );
            },
        };
        index = index + 1;
    }
    assert(fields@.subrange(0, fields@.len() as int) =~= fields@);
    Ok(total)
}

/// The section footprint of a typed query index archive that holds the given
/// row-mapped index bytes, record batch and record encoder metadata: the header
/// and framing counts, the length of each section as encoded, and their sums.
pub open spec fn section_footprint_of_parts(
    index: Seq<u8>,
    batch: FSERecordBatchArchiveSnapshot,
    fields: Seq<FSEFieldEncoderMetadata>,
) -> Result<FSETypedQueryIndexArchiveSectionFootprint, FSETypedQueryIndexArchiveFootprintError> {
    match batch_section_bytes(batch, fields) {
        Err(error) => Err(FSETypedQueryIndexArchiveFootprintError::TypedQueryIndexArchive(error)),
        Ok(section) => if record_encoder_metadata_bytes(fields).len() > u64::MAX {
            Err(FSETypedQueryIndexArchiveFootprintError::RecordEncoderMetadataByteCountOverflow)
        } else {
            section_footprint_of(
                13,
                index.len() as u64,
                section.len() as u64,
                record_encoder_metadata_bytes(fields).len() as u64,
                24,
            )
        },
    }
}

/// Reports the section footprint of a typed query index archive from the bytes
/// of its row-mapped index, its record batch and its record encoder metadata.
/// The batch section is measured by encoding it; the encoder metadata section by
/// counting its bytes.
pub fn typed_query_index_archive_section_footprint_from_parts(
    index_bytes: &[u8],
    batch: &FSERecordBatchArchiveSnapshot,
    record_encoder: &FSERecordEncoderMetadata,
) -> (result: Result<FSETypedQueryIndexArchiveSectionFootprint, FSETypedQueryIndexArchiveFootprintError>)
    ensures
        result == section_footprint_of_parts(index_bytes@, *batch, record_encoder@),
        result matches Ok(footprint) ==> footprint.typed_query_index_payload_bytes
            == typed_query_index_archive_bytes(
            index_bytes@,
            batch_section_bytes(*batch, record_encoder@)->Ok_0,
            record_encoder_metadata_bytes(record_encoder@),
        ).len(),
{
    let section = match encode_typed_query_index_record_batch_section(batch, record_encoder) {
        Ok(bytes) => bytes,
        Err(error) => return Err(FSETypedQueryIndexArchiveFootprintError::TypedQueryIndexArchive(error)),
    };
    let encoder_bytes = match record_encoder_metadata_archive_byte_count(record_encoder) {
        Ok(count) => count,
        Err(error) => return Err(error),
    };
    proof {
        vstd::bytes::lemma_auto_spec_u64_to_from_le_bytes();
    }
    FSETypedQueryIndexArchiveSectionFootprint::try_new(
        archive_payload_header_byte_count(),
        index_bytes.len() as u64,
        section.len() as u64,
        encoder_bytes,
        typed_query_index_section_framing_byte_count(),
    )
}

/// Reports the section footprint of the bytes of the typed query index archive
/// file at `path` and checks its total against the length of the file. The
/// row-mapped index section is measured as stored; the record batch section is
/// measured as the columnar layout encodes it. For an archive file written from
/// parts, the report is the footprint of those parts, whose total is the length
/// of the file.
pub fn typed_query_index_archive_section_footprint_from_file_bytes(
    path: &std::path::PathBuf,
    archive_bytes: &[u8],
) -> (result: Result<FSETypedQueryIndexArchiveSectionFootprint, FSETypedQueryIndexArchiveFootprintError>)
    ensures
        decoded_archive_payload(FSEArchivePayloadKind::TypedQueryIndex, archive_bytes@) matches Err(
            error,
        ) ==> result == Err::<
            FSETypedQueryIndexArchiveSectionFootprint,
            FSETypedQueryIndexArchiveFootprintError,
        >(FSETypedQueryIndexArchiveFootprintError::Payload(error)),
        result matches Ok(footprint) ==> footprint.total_archive_bytes == archive_bytes@.len(),
        result matches Err(
            FSETypedQueryIndexArchiveFootprintError::ArchiveByteCountMismatch {
                file_bytes,
                section_total_bytes,
                ..
            },
        ) ==> file_bytes == archive_bytes@.len() && section_total_bytes != file_bytes,
        forall|index: Seq<u8>, batch: FSERecordBatchArchiveSnapshot, fields: Seq<FSEFieldEncoderMetadata>|
            records_have_field_count(batch) && snapshot_counts_fit(batch) && (
            #[trigger] typed_query_index_archive_of(index, batch, fields) matches Some(payload)
                && archive_bytes@ == encoded_archive_payload(
                FSEArchivePayloadKind::TypedQueryIndex,
                payload,
            )) ==> (result == section_footprint_of_parts(index, batch, fields) && (result matches Ok(
                footprint,
            ) && footprint.total_archive_bytes == archive_bytes@.len())),
{
    proof {
        assert forall|index: Seq<u8>, batch_target: FSERecordBatchArchiveSnapshot, fields: Seq<FSEFieldEncoderMetadata>|
            (#[trigger] typed_query_index_archive_of(index, batch_target, fields) matches Some(framed)
                && archive_bytes@ == encoded_archive_payload(
                FSEArchivePayloadKind::TypedQueryIndex,
                framed,
            )) implies decoded_archive_payload(FSEArchivePayloadKind::TypedQueryIndex, archive_bytes@)
            == Ok::<Seq<u8>, FSEArchivePayloadHeaderError>(
            typed_query_index_archive_of(index, batch_target, fields)->Some_0,
        ) by {
            let framed = typed_query_index_archive_of(index, batch_target, fields)->Some_0;
            lemma_archive_payload_round_trip(FSEArchivePayloadKind::TypedQueryIndex, framed);
        }
    }
    let payload = match decode_archive_payload(FSEArchivePayloadKind::TypedQueryIndex, archive_bytes) {
        Ok(payload) => payload,
        Err(error) => return Err(FSETypedQueryIndexArchiveFootprintError::Payload(error)),
    };
    let parts = match decode_typed_query_index_archive_parts(payload.as_slice()) {
        Ok(parts) => parts,
        Err(error) => return Err(FSETypedQueryIndexArchiveFootprintError::TypedQueryIndexArchive(error)),
    };
    let (index_bytes, batch, record_encoder) = parts;
    let file_bytes = archive_bytes.len() as u64;
    proof {
        assert forall|index: Seq<u8>, batch_target: FSERecordBatchArchiveSnapshot, fields: Seq<FSEFieldEncoderMetadata>|
            records_have_field_count(batch_target) && snapshot_counts_fit(batch_target)
                && (#[trigger] typed_query_index_archive_of(
                index,
                batch_target,
                fields,
            ) matches Some(framed) && archive_bytes@ == encoded_archive_payload(
                FSEArchivePayloadKind::TypedQueryIndex,
                framed,
            )) implies section_footprint_of_parts(index_bytes@, batch, record_encoder@)
            == section_footprint_of_parts(index, batch_target, fields) && (section_footprint_of_parts(
            index,
            batch_target,
            fields,
        ) matches Ok(footprint) && footprint.total_archive_bytes == file_bytes) by {
            let framed = typed_query_index_archive_of(index, batch_target, fields)->Some_0;
            assert(payload@ == framed);
            lemma_matching_encoders_encode_alike(record_encoder@, fields);
            vstd::bytes::lemma_auto_spec_u64_to_from_le_bytes();
            let section = batch_section_bytes(batch_target, fields)->Ok_0;
            assert(framed == typed_query_index_archive_bytes(
                index,
                section,
                record_encoder_metadata_bytes(fields),
            ));
            assert(framed.len() == 24 + index.len() + section.len() + record_encoder_metadata_bytes(
                fields,
            ).len());
            assert(archive_bytes@.len() == 13 + framed.len());
        }
    }
    let footprint = match typed_query_index_archive_section_footprint_from_parts(
        index_bytes.as_slice(),
        &batch,
        &record_encoder,
    ) {
        Ok(footprint) => footprint,
        Err(error) => return Err(error),
    };
    if footprint.total_archive_bytes != file_bytes {
        return Err(
            FSETypedQueryIndexArchiveFootprintError::ArchiveByteCountMismatch {
                path: path.clone(),
                file_bytes,
                section_total_bytes: footprint.total_archive_bytes,
            },
        );
    }
    Ok(footprint)
}

} // verus!
