//! Binary encoding of the sections of a typed query index archive: record
//! encoder metadata and the compact typed record batch layouts.
use vstd::bytes::*;
use vstd::prelude::*;
use vstd::std_specs::convert::FromSpecImpl;
use vstd::utf8::{decode_utf8, encode_utf8, valid_utf8};

use crate::bytes::{write_bytes, write_u64};
use crate::cursor::{le_u64, string_field_bytes, ByteCursor, CursorError};
use crate::text::lemma_utf8_encoding_injective;
use crate::encoding::metadata::{
    record_encoder_metadata_error_message, FSEFieldEncoderMetadata, FSERecordEncoderMetadata,
    FSERecordEncoderMetadataError,
};

use super::query_index_snapshot::{
    query_index_snapshot_error_message, FSETypedQueryIndexArchiveSnapshotError,
};
use super::record_batch_codec::{
    record_batch_codec_error_message, FSETypedRecordBatchArchiveCodecError,
};
use super::row_mapped_codec::{row_mapped_codec_error_message, FSERowMappedArchiveCodecError};

use crate::encoding::metadata::record_encoder_metadata_error_text;
use crate::text::owned_text;

verus! {

broadcast use vstd::utf8::encode_utf8_valid_utf8, vstd::utf8::encode_utf8_decode_utf8, vstd::utf8::decode_utf8_encode_utf8;

/// Error returned when typed query index archive byte encoding or decoding fails.
#[derive(Clone, Debug, PartialEq, Eq)]
pub enum FSETypedQueryIndexArchiveCodecError {
    /// The typed query index snapshot failed validation.
    Snapshot(FSETypedQueryIndexArchiveSnapshotError),
    /// The embedded row-mapped index snapshot codec failed.
    IndexCodec(FSERowMappedArchiveCodecError),
    /// The embedded typed record batch snapshot codec failed.
    BatchCodec(FSETypedRecordBatchArchiveCodecError),
    /// The embedded record encoder metadata failed validation.
    EncoderMetadata(FSERecordEncoderMetadataError),
    /// The compact typed record batch field count did not match encoder metadata.
    CompactBatchEncoderFieldCountMismatch {
        /// Number of schema fields stored in the record batch section.
        schema_field_count: usize,
        /// Number of field encoders stored in metadata.
        encoder_field_count: usize,
    },
    /// A categorical value was not described by categorical encoder metadata.
    CompactBatchCategoryEncoderMismatch {
        /// Field index containing the categorical value.
        field_index: usize,
    },
    /// A categorical value was not present in encoder metadata.
    CompactBatchCategoryNotInEncoderMetadata {
        /// Field index containing the categorical value.
        field_index: usize,
        /// Category label found in the record batch.
        category: String,
    },
    /// A categorical code was outside the encoder dictionary.
    CompactBatchCategoryCodeOutOfRange {
        /// Field index containing the categorical value.
        field_index: usize,
        /// Encoded category code found in the archive.
        code: u64,
        /// Number of categories available in encoder metadata.
        category_count: usize,
    },
    /// A columnar compact batch value did not match the schema field type.
    CompactBatchColumnValueTypeMismatch {
        /// Field index containing the mismatched value.
        field_index: usize,
    },
    /// The byte slice ended before a complete typed query index field could be read.
    UnexpectedEndOfArchive {
        /// Archive field being read.
        field: &'static str,
        /// Number of bytes required for the field.
        needed: usize,
        /// Number of bytes remaining in the input.
        remaining: usize,
    },
    /// The archive contained bytes after the decoded typed query index snapshot.
    TrailingBytes {
        /// Number of unread bytes.
        remaining: usize,
    },
    /// A length field cannot be represented by this runtime.
    LengthOutOfRange {
        /// Archive field being read.
        field: &'static str,
        /// Length found in the input.
        length: u64,
    },
    /// A field encoder metadata tag was not recognized.
    InvalidFieldEncoderMetadataTag {
        /// Archive field being read.
        field: &'static str,
        /// Tag found in the input.
        tag: u8,
    },
    /// A compact typed record batch field type tag was not recognized.
    InvalidCompactBatchFieldTypeTag {
        /// Archive field being read.
        field: &'static str,
        /// Tag found in the input.
        tag: u8,
    },
    /// A compact typed record batch value tag was not recognized.
    InvalidCompactBatchValueTag {
        /// Archive field being read.
        field: &'static str,
        /// Tag found in the input.
        tag: u8,
    },
    /// A compact typed record batch boolean field contained an invalid byte.
    InvalidCompactBatchBoolean {
        /// Archive field being read.
        field: &'static str,
        /// Raw boolean value found in the archive.
        value: u8,
    },
    /// A compact integer vector mode was not recognized.
    InvalidCompactIntegerVectorMode {
        /// Archive field being read.
        field: &'static str,
        /// Mode byte found in the input.
        mode: u8,
    },
    /// A compact typed record batch null bitmap mode was not recognized.
    InvalidCompactBatchNullMode {
        /// Archive field being read.
        field: &'static str,
        /// Mode byte found in the input.
        mode: u8,
    },
    /// A UTF-8 string field could not be decoded.
    InvalidUtf8 {
        /// Archive field being read.
        field: &'static str,
    },
}

/// Diagnostic text of a typed query index codec error; a wrapped error is
/// reported with its own text.
pub open spec fn query_index_codec_error_message(error: FSETypedQueryIndexArchiveCodecError) -> &'static str {
    match error {
        FSETypedQueryIndexArchiveCodecError::Snapshot(error) => query_index_snapshot_error_message(
            error,
        ),
        FSETypedQueryIndexArchiveCodecError::IndexCodec(error) => row_mapped_codec_error_message(
            error,
        ),
        FSETypedQueryIndexArchiveCodecError::BatchCodec(error) => record_batch_codec_error_message(
            error,
        ),
        FSETypedQueryIndexArchiveCodecError::EncoderMetadata(error) => {
            record_encoder_metadata_error_message(error)
        },
        FSETypedQueryIndexArchiveCodecError::CompactBatchEncoderFieldCountMismatch { .. } => {
            "compact typed record batch field count does not match encoder metadata"
        },
        FSETypedQueryIndexArchiveCodecError::CompactBatchCategoryEncoderMismatch { .. } => {
            "compact typed record batch category value requires category encoder metadata"
        },
        FSETypedQueryIndexArchiveCodecError::CompactBatchCategoryNotInEncoderMetadata { .. } => {
            "compact typed record batch category is missing from encoder metadata"
        },
        FSETypedQueryIndexArchiveCodecError::CompactBatchCategoryCodeOutOfRange { .. } => {
            "compact typed record batch category code is outside encoder metadata"
        },
        FSETypedQueryIndexArchiveCodecError::CompactBatchColumnValueTypeMismatch { .. } => {
            "compact typed record batch column value does not match schema"
        },
        FSETypedQueryIndexArchiveCodecError::UnexpectedEndOfArchive { .. } => {
            "typed query index archive ended before the field could be read"
        },
        FSETypedQueryIndexArchiveCodecError::TrailingBytes { .. } => {
            "typed query index archive contains trailing bytes"
        },
        FSETypedQueryIndexArchiveCodecError::LengthOutOfRange { .. } => {
            "typed query index archive length field is outside the runtime range"
        },
        FSETypedQueryIndexArchiveCodecError::InvalidFieldEncoderMetadataTag { .. } => {
            "typed query index archive contains an invalid encoder metadata tag"
        },
        FSETypedQueryIndexArchiveCodecError::InvalidCompactBatchFieldTypeTag { .. } => {
            "compact typed record batch archive contains an invalid field type tag"
        },
        FSETypedQueryIndexArchiveCodecError::InvalidCompactBatchValueTag { .. } => {
            "compact typed record batch archive contains an invalid value tag"
        },
        FSETypedQueryIndexArchiveCodecError::InvalidCompactBatchBoolean { .. } => {
            "compact typed record batch archive boolean field is invalid"
        },
        FSETypedQueryIndexArchiveCodecError::InvalidCompactIntegerVectorMode { .. } => {
            "compact typed query index integer vector mode is invalid"
        },
        FSETypedQueryIndexArchiveCodecError::InvalidCompactBatchNullMode { .. } => {
            "compact typed record batch null bitmap mode is invalid"
        },
        FSETypedQueryIndexArchiveCodecError::InvalidUtf8 { .. } => {
            "typed query index archive contains invalid UTF-8"
        },
    }
}

impl FSETypedQueryIndexArchiveCodecError {
    /// Returns the diagnostic message for the error.
    pub fn message(&self) -> (message: &'static str)
        ensures
            message == query_index_codec_error_message(*self),
    {
        match self {
            FSETypedQueryIndexArchiveCodecError::Snapshot(error) => error.message(),
            FSETypedQueryIndexArchiveCodecError::IndexCodec(error) => error.message(),
            FSETypedQueryIndexArchiveCodecError::BatchCodec(error) => error.message(),
            FSETypedQueryIndexArchiveCodecError::EncoderMetadata(error) => error.message(),
            FSETypedQueryIndexArchiveCodecError::CompactBatchEncoderFieldCountMismatch { .. } => {
                "compact typed record batch field count does not match encoder metadata"
            },
            FSETypedQueryIndexArchiveCodecError::CompactBatchCategoryEncoderMismatch { .. } => {
                "compact typed record batch category value requires category encoder metadata"
            },
            FSETypedQueryIndexArchiveCodecError::CompactBatchCategoryNotInEncoderMetadata {
                ..
            } => "compact typed record batch category is missing from encoder metadata",
            FSETypedQueryIndexArchiveCodecError::CompactBatchCategoryCodeOutOfRange { .. } => {
                "compact typed record batch category code is outside encoder metadata"
            },
            FSETypedQueryIndexArchiveCodecError::CompactBatchColumnValueTypeMismatch { .. } => {
                "compact typed record batch column value does not match schema"
            },
            FSETypedQueryIndexArchiveCodecError::UnexpectedEndOfArchive { .. } => {
                "typed query index archive ended before the field could be read"
            },
            FSETypedQueryIndexArchiveCodecError::TrailingBytes { .. } => {
                "typed query index archive contains trailing bytes"
            },
            FSETypedQueryIndexArchiveCodecError::LengthOutOfRange { .. } => {
                "typed query index archive length field is outside the runtime range"
            },
            FSETypedQueryIndexArchiveCodecError::InvalidFieldEncoderMetadataTag { .. } => {
                "typed query index archive contains an invalid encoder metadata tag"
            },
            FSETypedQueryIndexArchiveCodecError::InvalidCompactBatchFieldTypeTag { .. } => {
                "compact typed record batch archive contains an invalid field type tag"
            },
            FSETypedQueryIndexArchiveCodecError::InvalidCompactBatchValueTag { .. } => {
                "compact typed record batch archive contains an invalid value tag"
            },
            FSETypedQueryIndexArchiveCodecError::InvalidCompactBatchBoolean { .. } => {
                "compact typed record batch archive boolean field is invalid"
            },
            FSETypedQueryIndexArchiveCodecError::InvalidCompactIntegerVectorMode { .. } => {
                "compact typed query index integer vector mode is invalid"
            },
            FSETypedQueryIndexArchiveCodecError::InvalidCompactBatchNullMode { .. } => {
                "compact typed record batch null bitmap mode is invalid"
            },
            FSETypedQueryIndexArchiveCodecError::InvalidUtf8 { .. } => {
                "typed query index archive contains invalid UTF-8"
            },
        }
    }
}

/// Diagnostic text of an error of type `FSETypedQueryIndexArchiveCodecError`, carrying the values that the
/// wrapped errors name.
pub open spec fn query_index_codec_error_text(error: FSETypedQueryIndexArchiveCodecError) -> Seq<char> {
    match error {
        FSETypedQueryIndexArchiveCodecError::EncoderMetadata(error) => record_encoder_metadata_error_text(error),
        _ => query_index_codec_error_message(error)@,
    }
}

impl FSETypedQueryIndexArchiveCodecError {
    /// Returns the diagnostic text for the error, carrying the values that the
    /// wrapped errors name.
    pub fn description(&self) -> (text: String)
        ensures
            text@ == query_index_codec_error_text(*self),
    {
        match self {
            FSETypedQueryIndexArchiveCodecError::EncoderMetadata(error) => error.description(),
            _ => owned_text(self.message()),
        }
    }
}

impl From<FSETypedQueryIndexArchiveSnapshotError> for FSETypedQueryIndexArchiveCodecError {
    fn from(error: FSETypedQueryIndexArchiveSnapshotError) -> (converted: Self) {
        FSETypedQueryIndexArchiveCodecError::Snapshot(error)
    }
}

impl FromSpecImpl<FSETypedQueryIndexArchiveSnapshotError> for FSETypedQueryIndexArchiveCodecError {
    open spec fn obeys_from_spec() -> bool {
        true
    }

    open spec fn from_spec(error: FSETypedQueryIndexArchiveSnapshotError) -> Self {
        FSETypedQueryIndexArchiveCodecError::Snapshot(error)
    }
}

impl From<FSERowMappedArchiveCodecError> for FSETypedQueryIndexArchiveCodecError {
    fn from(error: FSERowMappedArchiveCodecError) -> (converted: Self) {
        FSETypedQueryIndexArchiveCodecError::IndexCodec(error)
    }
}

impl FromSpecImpl<FSERowMappedArchiveCodecError> for FSETypedQueryIndexArchiveCodecError {
    open spec fn obeys_from_spec() -> bool {
        true
    }

    open spec fn from_spec(error: FSERowMappedArchiveCodecError) -> Self {
        FSETypedQueryIndexArchiveCodecError::IndexCodec(error)
    }
}

impl From<FSETypedRecordBatchArchiveCodecError> for FSETypedQueryIndexArchiveCodecError {
    fn from(error: FSETypedRecordBatchArchiveCodecError) -> (converted: Self) {
        FSETypedQueryIndexArchiveCodecError::BatchCodec(error)
    }
}

impl FromSpecImpl<FSETypedRecordBatchArchiveCodecError> for FSETypedQueryIndexArchiveCodecError {
    open spec fn obeys_from_spec() -> bool {
        true
    }

    open spec fn from_spec(error: FSETypedRecordBatchArchiveCodecError) -> Self {
        FSETypedQueryIndexArchiveCodecError::BatchCodec(error)
    }
}

impl From<FSERecordEncoderMetadataError> for FSETypedQueryIndexArchiveCodecError {
    fn from(error: FSERecordEncoderMetadataError) -> (converted: Self) {
        FSETypedQueryIndexArchiveCodecError::EncoderMetadata(error)
    }
}

impl FromSpecImpl<FSERecordEncoderMetadataError> for FSETypedQueryIndexArchiveCodecError {
    open spec fn obeys_from_spec() -> bool {
        true
    }

    open spec fn from_spec(error: FSERecordEncoderMetadataError) -> Self {
        FSETypedQueryIndexArchiveCodecError::EncoderMetadata(error)
    }
}

/// The codec error for a failed primitive read of `field`.
pub open spec fn read_error(error: CursorError, field: &'static str) -> FSETypedQueryIndexArchiveCodecError {
    match error {
        CursorError::UnexpectedEnd { needed, remaining } => {
            FSETypedQueryIndexArchiveCodecError::UnexpectedEndOfArchive { field, needed, remaining }
        },
        CursorError::LengthOutOfRange { length } => {
            FSETypedQueryIndexArchiveCodecError::LengthOutOfRange { field, length }
        },
        CursorError::InvalidUtf8 { .. } => FSETypedQueryIndexArchiveCodecError::InvalidUtf8 {
            field,
        },
    }
}

pub(crate) fn lift(error: CursorError, field: &'static str) -> (lifted: FSETypedQueryIndexArchiveCodecError)
    ensures
        lifted == read_error(error, field),
{
    match error {
        CursorError::UnexpectedEnd { needed, remaining } => {
            FSETypedQueryIndexArchiveCodecError::UnexpectedEndOfArchive { field, needed, remaining }
        },
        CursorError::LengthOutOfRange { length } => {
            FSETypedQueryIndexArchiveCodecError::LengthOutOfRange { field, length }
        },
        CursorError::InvalidUtf8 { .. } => FSETypedQueryIndexArchiveCodecError::InvalidUtf8 {
            field,
        },
    }
}

/// Tag byte of integer field encoder metadata.
pub const FIELD_ENCODER_INTEGER_TAG: u8 = 0;

/// Tag byte of floating point field encoder metadata.
pub const FIELD_ENCODER_FLOAT_TAG: u8 = 1;

/// Tag byte of boolean field encoder metadata.
pub const FIELD_ENCODER_BOOLEAN_TAG: u8 = 2;

/// Tag byte of timestamp field encoder metadata.
pub const FIELD_ENCODER_TIMESTAMP_MILLIS_TAG: u8 = 3;

/// Tag byte of categorical dictionary field encoder metadata.
pub const FIELD_ENCODER_CATEGORY_DICTIONARY_TAG: u8 = 4;

/// Concatenated string fields of each label.
pub open spec fn string_fields_bytes(texts: Seq<String>) -> Seq<u8>
    decreases texts.len(),
{
    if texts.len() == 0 {
        Seq::empty()
    } else {
        string_fields_bytes(texts.drop_last()) + string_field_bytes(texts.last()@)
    }
}

/// Bytes of one field encoder metadata record: its tag byte, followed for a
/// categorical dictionary by the label count and each label.
pub open spec fn field_encoder_metadata_bytes(metadata: FSEFieldEncoderMetadata) -> Seq<u8> {
    match metadata {
        FSEFieldEncoderMetadata::Integer => seq![FIELD_ENCODER_INTEGER_TAG],
        FSEFieldEncoderMetadata::Float => seq![FIELD_ENCODER_FLOAT_TAG],
        FSEFieldEncoderMetadata::Boolean => seq![FIELD_ENCODER_BOOLEAN_TAG],
        FSEFieldEncoderMetadata::TimestampMillis => seq![FIELD_ENCODER_TIMESTAMP_MILLIS_TAG],
        FSEFieldEncoderMetadata::CategoryDictionary { categories } => seq![
            FIELD_ENCODER_CATEGORY_DICTIONARY_TAG,
        ] + spec_u64_to_le_bytes(categories@.len() as u64) + string_fields_bytes(categories@),
    }
}

/// Concatenated records of each field encoder.
pub open spec fn field_encoders_bytes(fields: Seq<FSEFieldEncoderMetadata>) -> Seq<u8>
    decreases fields.len(),
{
    if fields.len() == 0 {
        Seq::empty()
    } else {
        field_encoders_bytes(fields.drop_last()) + field_encoder_metadata_bytes(fields.last())
    }
}

/// Bytes of a record encoder metadata section: the field count as a
/// little-endian `u64`, then each field encoder record.
pub open spec fn record_encoder_metadata_bytes(fields: Seq<FSEFieldEncoderMetadata>) -> Seq<u8> {
    spec_u64_to_le_bytes(fields.len() as u64) + field_encoders_bytes(fields)
}

/// Appends a length-prefixed UTF-8 string field.
pub fn write_string(out: &mut Vec<u8>, value: &str)
    ensures
        final(out)@ == old(out)@ + string_field_bytes(value@),
{
    let bytes = value.as_bytes();
    write_u64(out, bytes.len() as u64);
    write_bytes(out, bytes);
    assert(out@ =~= old(out)@ + string_field_bytes(value@));
}

fn write_strings(out: &mut Vec<u8>, texts: &[String])
    ensures
        final(out)@ == old(out)@ + string_fields_bytes(texts@),
{
    let mut index: usize = 0;
    while index < texts.len()
        invariant
            index <= texts@.len(),
            out@ == old(out)@ + string_fields_bytes(texts@.subrange(0, index as int)),
        decreases texts@.len() - index,
    {
        write_string(out, texts[index].as_str());
        proof {
            let next = texts@.subrange(0, index + 1);
            assert(next.drop_last() =~= texts@.subrange(0, index as int));
            assert(out@ =~= old(out)@ + string_fields_bytes(next));
        }
        index = index + 1;
    }
    assert(texts@.subrange(0, texts@.len() as int) =~= texts@);
}

/// Appends one field encoder metadata record.
pub fn encode_field_encoder_metadata(out: &mut Vec<u8>, metadata: &FSEFieldEncoderMetadata)
    ensures
        final(out)@ == old(out)@ + field_encoder_metadata_bytes(*metadata),
{
    match metadata {
        FSEFieldEncoderMetadata::Integer => out.push(FIELD_ENCODER_INTEGER_TAG),
        FSEFieldEncoderMetadata::Float => out.push(FIELD_ENCODER_FLOAT_TAG),
        FSEFieldEncoderMetadata::Boolean => out.push(FIELD_ENCODER_BOOLEAN_TAG),
        FSEFieldEncoderMetadata::TimestampMillis => out.push(FIELD_ENCODER_TIMESTAMP_MILLIS_TAG),
        FSEFieldEncoderMetadata::CategoryDictionary { categories } => {
            out.push(FIELD_ENCODER_CATEGORY_DICTIONARY_TAG);
            write_u64(out, categories.len() as u64);
            write_strings(out, categories.as_slice());
        },
    }
    assert(out@ =~= old(out)@ + field_encoder_metadata_bytes(*metadata));
}

/// Encodes record encoder metadata into its section bytes.
pub fn encode_record_encoder_metadata(metadata: &FSERecordEncoderMetadata) -> (bytes: Vec<u8>)
    ensures
        bytes@ == record_encoder_metadata_bytes(metadata@),
{
    let fields = metadata.fields();
    let mut bytes: Vec<u8> = Vec::new();
    write_u64(&mut bytes, fields.len() as u64);
    let mut index: usize = 0;
    while index < fields.len()
        invariant
            fields@ == metadata@,
            index <= fields@.len(),
            bytes@ == spec_u64_to_le_bytes(fields@.len() as u64) + field_encoders_bytes(
                fields@.subrange(0, index as int),
            ),
        decreases fields@.len() - index,
    {
        encode_field_encoder_metadata(&mut bytes, &fields[index]);
        proof {
            let next = fields@.subrange(0, index + 1);
            assert(next.drop_last() =~= fields@.subrange(0, index as int));
        }
        index = index + 1;
    }
    assert(fields@.subrange(0, fields@.len() as int) =~= fields@);
    bytes
}


/// The bytes start with `prefix`.
pub open spec fn starts_with(bytes: Seq<u8>, prefix: Seq<u8>) -> bool {
    &&& prefix.len() <= bytes.len()
    &&& bytes.subrange(0, prefix.len() as int) == prefix
}

proof fn lemma_string_fields_concat(left: Seq<String>, right: Seq<String>)
    ensures
        string_fields_bytes(left + right) == string_fields_bytes(left) + string_fields_bytes(right),
    decreases right.len(),
{
    if right.len() == 0 {
        assert(left + right =~= left);
    } else {
        lemma_string_fields_concat(left, right.drop_last());
        assert((left + right).drop_last() =~= left + right.drop_last());
    }
}

proof fn lemma_field_encoders_concat(left: Seq<FSEFieldEncoderMetadata>, right: Seq<FSEFieldEncoderMetadata>)
    ensures
        field_encoders_bytes(left + right) == field_encoders_bytes(left) + field_encoders_bytes(
            right,
        ),
    decreases right.len(),
{
    if right.len() == 0 {
        assert(left + right =~= left);
    } else {
        lemma_field_encoders_concat(left, right.drop_last());
        assert((left + right).drop_last() =~= left + right.drop_last());
    }
}

proof fn lemma_string_fields_first(texts: Seq<String>, index: int)
    requires
        0 <= index < texts.len(),
    ensures
        string_fields_bytes(texts.subrange(index, texts.len() as int)) == string_field_bytes(
            texts[index]@,
        ) + string_fields_bytes(texts.subrange(index + 1, texts.len() as int)),
{
    let tail = texts.subrange(index + 1, texts.len() as int);
    assert(texts.subrange(index, texts.len() as int) =~= seq![texts[index]] + tail);
    lemma_string_fields_concat(seq![texts[index]], tail);
    assert(seq![texts[index]].drop_last() =~= Seq::<String>::empty());
    reveal_with_fuel(string_fields_bytes, 2);
    assert(string_fields_bytes(seq![texts[index]]) =~= string_field_bytes(texts[index]@));
}

proof fn lemma_field_encoders_first(fields: Seq<FSEFieldEncoderMetadata>, index: int)
    requires
        0 <= index < fields.len(),
    ensures
        field_encoders_bytes(fields.subrange(index, fields.len() as int))
            == field_encoder_metadata_bytes(fields[index]) + field_encoders_bytes(
            fields.subrange(index + 1, fields.len() as int),
        ),
{
    let tail = fields.subrange(index + 1, fields.len() as int);
    assert(fields.subrange(index, fields.len() as int) =~= seq![fields[index]] + tail);
    lemma_field_encoders_concat(seq![fields[index]], tail);
    assert(seq![fields[index]].drop_last() =~= Seq::<FSEFieldEncoderMetadata>::empty());
    reveal_with_fuel(field_encoders_bytes, 2);
    assert(field_encoders_bytes(seq![fields[index]]) =~= field_encoder_metadata_bytes(
        fields[index],
    ));
}

/// Two field encoder records match: the same kind, with labels of the same
/// characters for a dictionary.
pub open spec fn field_encoder_matches(left: FSEFieldEncoderMetadata, right: FSEFieldEncoderMetadata) -> bool {
    match (left, right) {
        (
            FSEFieldEncoderMetadata::CategoryDictionary { categories: a },
            FSEFieldEncoderMetadata::CategoryDictionary { categories: b },
        ) => a@.len() == b@.len() && forall|i: int| 0 <= i < a@.len() ==> #[trigger] a@[i]@ == b@[i]@,
        (FSEFieldEncoderMetadata::CategoryDictionary { .. }, _) => false,
        (_, FSEFieldEncoderMetadata::CategoryDictionary { .. }) => false,
        _ => left == right,
    }
}

/// Two lists of field encoder records match record by record.
pub open spec fn field_encoders_match(left: Seq<FSEFieldEncoderMetadata>, right: Seq<FSEFieldEncoderMetadata>) -> bool {
    &&& left.len() == right.len()
    &&& forall|i: int| 0 <= i < left.len() ==> field_encoder_matches(#[trigger] left[i], right[i])
}

proof fn lemma_matching_labels_bytes(left: Seq<String>, right: Seq<String>)
    requires
        left.len() == right.len(),
        forall|i: int| 0 <= i < left.len() ==> #[trigger] left[i]@ == right[i]@,
    ensures
        string_fields_bytes(left) == string_fields_bytes(right),
    decreases left.len(),
{
    if left.len() > 0 {
        lemma_matching_labels_bytes(left.drop_last(), right.drop_last());
        assert(left.last()@ == right[right.len() - 1]@);
    }
}

proof fn lemma_matching_encoders_bytes(left: Seq<FSEFieldEncoderMetadata>, right: Seq<FSEFieldEncoderMetadata>)
    requires
        field_encoders_match(left, right),
    ensures
        field_encoders_bytes(left) == field_encoders_bytes(right),
    decreases left.len(),
{
    if left.len() > 0 {
        let shorter_left = left.drop_last();
        let shorter_right = right.drop_last();
        assert(field_encoders_match(shorter_left, shorter_right)) by {
            assert forall|i: int| 0 <= i < shorter_left.len() implies field_encoder_matches(
                #[trigger] shorter_left[i],
                shorter_right[i],
            ) by {
                assert(field_encoder_matches(left[i], right[i]));
            }
        }
        lemma_matching_encoders_bytes(shorter_left, shorter_right);
        let last = left.len() - 1;
        assert(field_encoder_matches(left[last], right[last]));
        match (left[last], right[last]) {
            (
                FSEFieldEncoderMetadata::CategoryDictionary { categories: a },
                FSEFieldEncoderMetadata::CategoryDictionary { categories: b },
            ) => {
                lemma_matching_labels_bytes(a@, b@);
            },
            _ => {},
        }
    }
}

/// Field encoders that match record by record have the same encoding.
pub proof fn lemma_matching_encoders_encode_alike(left: Seq<FSEFieldEncoderMetadata>, right: Seq<FSEFieldEncoderMetadata>)
    requires
        field_encoders_match(left, right),
    ensures
        record_encoder_metadata_bytes(left) == record_encoder_metadata_bytes(right),
{
    lemma_matching_encoders_bytes(left, right);
}

/// Label lists of one length whose encodings start two equal byte strings, of a
/// length that fits in a `u64`, are the same labels, and what follows them is
/// the same.
proof fn lemma_string_fields_unique(left: Seq<String>, right: Seq<String>, left_rest: Seq<u8>, right_rest: Seq<u8>)
    requires
        left.len() == right.len(),
        string_fields_bytes(left) + left_rest == string_fields_bytes(right) + right_rest,
        (string_fields_bytes(left) + left_rest).len() <= u64::MAX,
    ensures
        forall|i: int| 0 <= i < left.len() ==> #[trigger] left[i]@ == right[i]@,
        left_rest == right_rest,
    decreases left.len(),
{
    if left.len() == 0 {
        assert(left_rest =~= string_fields_bytes(left) + left_rest);
        assert(right_rest =~= string_fields_bytes(right) + right_rest);
    } else {
        lemma_auto_spec_u64_to_from_le_bytes();
        lemma_string_fields_first(left, 0);
        lemma_string_fields_first(right, 0);
        assert(left.subrange(0, left.len() as int) =~= left);
        assert(right.subrange(0, right.len() as int) =~= right);
        let left_tail = left.subrange(1, left.len() as int);
        let right_tail = right.subrange(1, right.len() as int);
        let left_text = encode_utf8(left[0]@);
        let right_text = encode_utf8(right[0]@);
        let whole_left = spec_u64_to_le_bytes(left_text.len() as u64) + left_text + (string_fields_bytes(
            left_tail,
        ) + left_rest);
        let whole_right = spec_u64_to_le_bytes(right_text.len() as u64) + right_text + (
        string_fields_bytes(right_tail) + right_rest);
        assert(whole_left =~= string_fields_bytes(left) + left_rest);
        assert(whole_right =~= string_fields_bytes(right) + right_rest);
        assert(left_text.len() <= u64::MAX);
        assert(right_text.len() <= u64::MAX);
        assert(whole_left.subrange(0, 8) =~= spec_u64_to_le_bytes(left_text.len() as u64));
        assert(whole_right.subrange(0, 8) =~= spec_u64_to_le_bytes(right_text.len() as u64));
        assert(left_text.len() == right_text.len());
        assert(whole_left.subrange(8, 8 + left_text.len() as int) =~= left_text);
        assert(whole_right.subrange(8, 8 + right_text.len() as int) =~= right_text);
        lemma_utf8_encoding_injective(left[0]@, right[0]@);
        let after: int = 8 + left_text.len() as int;
        assert(whole_left.subrange(after, whole_left.len() as int) =~= string_fields_bytes(left_tail)
            + left_rest);
        assert(whole_right.subrange(after, whole_right.len() as int) =~= string_fields_bytes(
            right_tail,
        ) + right_rest);
        lemma_string_fields_unique(left_tail, right_tail, left_rest, right_rest);
        assert forall|i: int| 0 <= i < left.len() implies #[trigger] left[i]@ == right[i]@ by {
            if i > 0 {
                assert(left_tail[i - 1] == left[i]);
                assert(right_tail[i - 1] == right[i]);
            }
        }
    }
}

/// Field encoder records whose encodings start two equal byte strings, of a
/// length that fits in a `u64`, match, and what follows them is the same.
proof fn lemma_field_encoder_unique(
    left: FSEFieldEncoderMetadata,
    right: FSEFieldEncoderMetadata,
    left_rest: Seq<u8>,
    right_rest: Seq<u8>,
)
    requires
        field_encoder_metadata_bytes(left) + left_rest == field_encoder_metadata_bytes(right)
            + right_rest,
        (field_encoder_metadata_bytes(left) + left_rest).len() <= u64::MAX,
    ensures
        field_encoder_matches(left, right),
        left_rest == right_rest,
{
    let whole_left = field_encoder_metadata_bytes(left) + left_rest;
    let whole_right = field_encoder_metadata_bytes(right) + right_rest;
    assert(whole_left[0] == field_encoder_metadata_bytes(left)[0]);
    assert(whole_right[0] == field_encoder_metadata_bytes(right)[0]);
    match (left, right) {
        (
            FSEFieldEncoderMetadata::CategoryDictionary { categories: a },
            FSEFieldEncoderMetadata::CategoryDictionary { categories: b },
        ) => {
            lemma_auto_spec_u64_to_from_le_bytes();
            lemma_string_fields_len(a@);
            lemma_string_fields_len(b@);
            let tail_left = spec_u64_to_le_bytes(a@.len() as u64) + (string_fields_bytes(a@) + left_rest);
            let tail_right = spec_u64_to_le_bytes(b@.len() as u64) + (string_fields_bytes(b@) + right_rest);
            assert(whole_left.subrange(1, whole_left.len() as int) =~= tail_left);
            assert(whole_right.subrange(1, whole_right.len() as int) =~= tail_right);
            assert(tail_left.subrange(0, 8) =~= spec_u64_to_le_bytes(a@.len() as u64));
            assert(tail_right.subrange(0, 8) =~= spec_u64_to_le_bytes(b@.len() as u64));
            assert(a@.len() == b@.len());
            assert(tail_left.subrange(8, tail_left.len() as int) =~= string_fields_bytes(a@) + left_rest);
            assert(tail_right.subrange(8, tail_right.len() as int) =~= string_fields_bytes(b@)
                + right_rest);
            lemma_string_fields_unique(a@, b@, left_rest, right_rest);
        },
        (FSEFieldEncoderMetadata::CategoryDictionary { .. }, _) => {},
        (_, FSEFieldEncoderMetadata::CategoryDictionary { .. }) => {},
        _ => {
            assert(left_rest =~= whole_left.subrange(1, whole_left.len() as int));
            assert(right_rest =~= whole_right.subrange(1, whole_right.len() as int));
        },
    }
}

/// Record encoder metadata is determined by its encoding: metadata with equal
/// encodings, of a length that fits in a `u64`, match field by field.
pub proof fn lemma_record_encoder_metadata_bytes_injective(
    left: Seq<FSEFieldEncoderMetadata>,
    right: Seq<FSEFieldEncoderMetadata>,
)
    requires
        record_encoder_metadata_bytes(left) == record_encoder_metadata_bytes(right),
        record_encoder_metadata_bytes(left).len() <= u64::MAX,
    ensures
        field_encoders_match(left, right),
{
    lemma_auto_spec_u64_to_from_le_bytes();
    lemma_field_encoders_len(left);
    lemma_field_encoders_len(right);
    let whole = record_encoder_metadata_bytes(left);
    assert(whole.subrange(0, 8) =~= spec_u64_to_le_bytes(left.len() as u64));
    assert(record_encoder_metadata_bytes(right).subrange(0, 8) =~= spec_u64_to_le_bytes(
        right.len() as u64,
    ));
    assert(left.len() == right.len());
    assert(whole.subrange(8, whole.len() as int) =~= field_encoders_bytes(left) + Seq::<u8>::empty());
    assert(record_encoder_metadata_bytes(right).subrange(8, whole.len() as int) =~= field_encoders_bytes(
        right,
    ) + Seq::<u8>::empty());
    assert(left.subrange(0, left.len() as int) =~= left);
    assert(right.subrange(0, right.len() as int) =~= right);
    lemma_field_encoders_unique(left, right, 0, Seq::<u8>::empty(), Seq::<u8>::empty());
}

proof fn lemma_field_encoders_unique(
    left: Seq<FSEFieldEncoderMetadata>,
    right: Seq<FSEFieldEncoderMetadata>,
    from: int,
    left_rest: Seq<u8>,
    right_rest: Seq<u8>,
)
    requires
        left.len() == right.len(),
        0 <= from <= left.len(),
        field_encoders_bytes(left.subrange(from, left.len() as int)) + left_rest == field_encoders_bytes(
            right.subrange(from, right.len() as int),
        ) + right_rest,
        (field_encoders_bytes(left.subrange(from, left.len() as int)) + left_rest).len() <= u64::MAX,
    ensures
        forall|i: int| from <= i < left.len() ==> field_encoder_matches(#[trigger] left[i], right[i]),
        left_rest == right_rest,
    decreases left.len() - from,
{
    if from == left.len() {
        assert(left.subrange(from, left.len() as int) =~= Seq::<FSEFieldEncoderMetadata>::empty());
        assert(right.subrange(from, right.len() as int) =~= Seq::<FSEFieldEncoderMetadata>::empty());
        assert(left_rest =~= field_encoders_bytes(left.subrange(from, left.len() as int)) + left_rest);
        assert(right_rest =~= field_encoders_bytes(right.subrange(from, right.len() as int))
            + right_rest);
    } else {
        lemma_field_encoders_first(left, from);
        lemma_field_encoders_first(right, from);
        let left_tail = field_encoders_bytes(left.subrange(from + 1, left.len() as int)) + left_rest;
        let right_tail = field_encoders_bytes(right.subrange(from + 1, right.len() as int))
            + right_rest;
        assert(field_encoder_metadata_bytes(left[from]) + left_tail =~= field_encoders_bytes(
            left.subrange(from, left.len() as int),
        ) + left_rest);
        assert(field_encoder_metadata_bytes(right[from]) + right_tail =~= field_encoders_bytes(
            right.subrange(from, right.len() as int),
        ) + right_rest);
        lemma_field_encoder_unique(left[from], right[from], left_tail, right_tail);
        lemma_field_encoders_unique(left, right, from + 1, left_rest, right_rest);
    }
}

/// Reads a length-prefixed UTF-8 string field named `field`.
pub(crate) fn read_text(cursor: &mut ByteCursor, field: &'static str, Ghost(target): Ghost<Option<Seq<char>>>) -> (result: Result<
    String,
    FSETypedQueryIndexArchiveCodecError,
>)
    requires
        old(cursor).wf(),
        target matches Some(text) ==> starts_with(old(cursor).rest(), string_field_bytes(text)),
    ensures
        final(cursor).wf(),
        final(cursor).bytes@ == old(cursor).bytes@,
        result matches Ok(text) ==> old(cursor).rest() == string_field_bytes(text@)
            + final(cursor).rest(),
        target matches Some(text) ==> (result matches Ok(read) && read@ == text),
{
    proof {
        lemma_auto_spec_u64_to_from_le_bytes();
        if let Some(text) = target {
            let encoded = string_field_bytes(text);
            let rest = cursor.rest();
            assert(rest.subrange(0, 8) =~= encoded.subrange(0, 8));
            assert(encoded.subrange(0, 8) =~= spec_u64_to_le_bytes(encode_utf8(text).len() as u64));
            let length = encode_utf8(text).len() as int;
            assert(encoded.subrange(8, 8 + length) =~= encode_utf8(text));
            assert(rest.subrange(8, 8 + length) =~= rest.subrange(0, encoded.len() as int).subrange(
                8,
                8 + length,
            ));
        }
    }
    let text = match cursor.read_string() {
        Ok(text) => text,
        Err(error) => return Err(lift(error, field)),
    };
    proof {
        let rest = old(cursor).rest();
        let length = le_u64(rest);
        let bytes = rest.subrange(8, 8 + length);
        assert(encode_utf8(text@) == bytes);
        assert(spec_u64_to_le_bytes(length) == rest.subrange(0, 8));
        assert(rest =~= string_field_bytes(text@) + cursor.rest());
    }
    Ok(text)
}


pub(crate) proof fn lemma_starts_with_split(bytes: Seq<u8>, first: Seq<u8>, second: Seq<u8>)
    requires
        starts_with(bytes, first + second),
    ensures
        starts_with(bytes, first),
        starts_with(bytes.subrange(first.len() as int, bytes.len() as int), second),
{
    let whole = first + second;
    let prefix = bytes.subrange(0, whole.len() as int);
    assert(prefix == whole);
    assert(bytes.subrange(0, first.len() as int) =~= prefix.subrange(0, first.len() as int));
    assert(whole.subrange(0, first.len() as int) =~= first);
    assert(bytes.subrange(first.len() as int, bytes.len() as int).subrange(0, second.len() as int)
        =~= prefix.subrange(first.len() as int, whole.len() as int));
    assert(whole.subrange(first.len() as int, whole.len() as int) =~= second);
}

proof fn lemma_string_fields_len(texts: Seq<String>)
    ensures
        string_fields_bytes(texts).len() >= 8 * texts.len(),
    decreases texts.len(),
{
    if texts.len() > 0 {
        lemma_auto_spec_u64_to_from_le_bytes();
        lemma_string_fields_len(texts.drop_last());
    }
}

proof fn lemma_field_encoders_len(fields: Seq<FSEFieldEncoderMetadata>)
    ensures
        field_encoders_bytes(fields).len() >= fields.len(),
    decreases fields.len(),
{
    if fields.len() > 0 {
        lemma_field_encoders_len(fields.drop_last());
    }
}

/// Reads one field encoder metadata record.
fn decode_field_encoder_metadata(cursor: &mut ByteCursor, Ghost(target): Ghost<Option<FSEFieldEncoderMetadata>>) -> (result: Result<
    FSEFieldEncoderMetadata,
    FSETypedQueryIndexArchiveCodecError,
>)
    requires
        old(cursor).wf(),
        target matches Some(metadata) ==> starts_with(
            old(cursor).rest(),
            field_encoder_metadata_bytes(metadata),
        ),
    ensures
        final(cursor).wf(),
        final(cursor).bytes@ == old(cursor).bytes@,
        result matches Ok(metadata) ==> old(cursor).rest() == field_encoder_metadata_bytes(metadata)
            + final(cursor).rest(),
        target matches Some(metadata) ==> (result matches Ok(read) && field_encoder_metadata_bytes(
            read,
        ) == field_encoder_metadata_bytes(metadata)),
        old(cursor).rest().len() >= 1 && old(cursor).rest()[0] > FIELD_ENCODER_CATEGORY_DICTIONARY_TAG
            ==> result == Err::<FSEFieldEncoderMetadata, FSETypedQueryIndexArchiveCodecError>(
            FSETypedQueryIndexArchiveCodecError::InvalidFieldEncoderMetadataTag {
                field: "typed_index.record_encoder.field",
                tag: old(cursor).rest()[0],
            },
        ),
{
    let field = "typed_index.record_encoder.field";
    proof {
        if let Some(metadata) = target {
            assert(cursor.rest()[0] == field_encoder_metadata_bytes(metadata)[0]);
        }
    }
    let tag = match cursor.read_u8() {
        Ok(tag) => tag,
        Err(error) => return Err(lift(error, field)),
    };
    let ghost after_tag = cursor.rest();
    proof {
        assert(old(cursor).rest() =~= seq![tag] + after_tag);
    }
    if tag == FIELD_ENCODER_INTEGER_TAG {
        Ok(FSEFieldEncoderMetadata::Integer)
    } else if tag == FIELD_ENCODER_FLOAT_TAG {
        Ok(FSEFieldEncoderMetadata::Float)
    } else if tag == FIELD_ENCODER_BOOLEAN_TAG {
        Ok(FSEFieldEncoderMetadata::Boolean)
    } else if tag == FIELD_ENCODER_TIMESTAMP_MILLIS_TAG {
        Ok(FSEFieldEncoderMetadata::TimestampMillis)
    } else if tag == FIELD_ENCODER_CATEGORY_DICTIONARY_TAG {
        let ghost target_categories: Seq<String> = match target {
            Some(FSEFieldEncoderMetadata::CategoryDictionary { categories }) => categories@,
            _ => Seq::empty(),
        };
        let ghost has_target = target is Some;
        proof {
            lemma_auto_spec_u64_to_from_le_bytes();
            if has_target {
                let encoded = field_encoder_metadata_bytes(target->0);
                match target->0 {
                    FSEFieldEncoderMetadata::CategoryDictionary { .. } => {},
                    _ => {
                        assert(encoded[0] != FIELD_ENCODER_CATEGORY_DICTIONARY_TAG);
                    },
                }
                assert(encoded =~= seq![FIELD_ENCODER_CATEGORY_DICTIONARY_TAG] + (
                spec_u64_to_le_bytes(target_categories.len() as u64) + string_fields_bytes(
                    target_categories,
                )));
                lemma_starts_with_split(
                    old(cursor).rest(),
                    seq![FIELD_ENCODER_CATEGORY_DICTIONARY_TAG],
                    spec_u64_to_le_bytes(target_categories.len() as u64) + string_fields_bytes(
                        target_categories,
                    ),
                );
                assert(old(cursor).rest().subrange(1, old(cursor).rest().len() as int)
                    =~= after_tag);
                lemma_starts_with_split(
                    after_tag,
                    spec_u64_to_le_bytes(target_categories.len() as u64),
                    string_fields_bytes(target_categories),
                );
                lemma_string_fields_len(target_categories);
                assert(after_tag.subrange(0, 8) =~= spec_u64_to_le_bytes(
                    target_categories.len() as u64,
                ));
            }
        }
        let category_count = match cursor.read_len() {
            Ok(count) => count,
            Err(error) => return Err(lift(error, "typed_index.record_encoder.category_count")),
        };
        let ghost after_count = cursor.rest();
        proof {
            assert(after_tag =~= spec_u64_to_le_bytes(category_count as u64) + after_count);
            if has_target {
                assert(category_count == target_categories.len());
                assert(target_categories.subrange(0, target_categories.len() as int)
                    =~= target_categories);
            }
        }
        let mut categories: Vec<String> = Vec::with_capacity(category_count);
        let mut index: usize = 0;
        while index < category_count
            invariant
                cursor.wf(),
                cursor.bytes@ == old(cursor).bytes@,
                old(cursor).rest().len() >= 1,
                old(cursor).rest()[0] == FIELD_ENCODER_CATEGORY_DICTIONARY_TAG,
                has_target == (target is Some),
                index <= category_count,
                categories@.len() == index,
                after_count == string_fields_bytes(categories@) + cursor.rest(),
                has_target ==> {
                    &&& category_count == target_categories.len()
                    &&& starts_with(
                        cursor.rest(),
                        string_fields_bytes(
                            target_categories.subrange(index as int, target_categories.len() as int),
                        ),
                    )
                    &&& string_fields_bytes(categories@) == string_fields_bytes(
                        target_categories.subrange(0, index as int),
                    )
                },
            decreases category_count - index,
        {
            let ghost element_target: Option<Seq<char>> = if has_target {
                Some(target_categories[index as int]@)
            } else {
                None
            };
            let ghost before = cursor.rest();
            proof {
                if has_target {
                    lemma_string_fields_first(target_categories, index as int);
                    lemma_starts_with_split(
                        before,
                        string_field_bytes(target_categories[index as int]@),
                        string_fields_bytes(
                            target_categories.subrange(index + 1, target_categories.len() as int),
                        ),
                    );
                }
            }
            let text = match read_text(
                cursor,
                "typed_index.record_encoder.category",
                Ghost(element_target),
            ) {
                Ok(text) => text,
                Err(error) => return Err(error),
            };
            let ghost previous = categories@;
            categories.push(text);
            proof {
                assert(categories@.drop_last() =~= previous);
                assert(after_count =~= string_fields_bytes(categories@) + cursor.rest());
                if has_target {
                    let next = target_categories.subrange(0, index + 1);
                    assert(next.drop_last() =~= target_categories.subrange(0, index as int));
                    assert(cursor.rest() =~= before.subrange(
                        string_field_bytes(text@).len() as int,
                        before.len() as int,
                    ));
                }
            }
            index = index + 1;
        }
        let metadata = FSEFieldEncoderMetadata::CategoryDictionary { categories };
        proof {
            assert(old(cursor).rest() =~= field_encoder_metadata_bytes(metadata) + cursor.rest());
            if has_target {
                assert(target_categories.subrange(0, category_count as int) =~= target_categories);
            }
        }
        Ok(metadata)
    } else {
        Err(FSETypedQueryIndexArchiveCodecError::InvalidFieldEncoderMetadataTag { field, tag })
    }
}


/// Decodes a record encoder metadata section. Decoding succeeds exactly on the
/// bytes that some metadata encodes to, and the decoded metadata encodes back
/// to the same bytes.
pub fn decode_record_encoder_metadata(bytes: &[u8]) -> (result: Result<
    FSERecordEncoderMetadata,
    FSETypedQueryIndexArchiveCodecError,
>)
    ensures
        result matches Ok(metadata) ==> bytes@ == record_encoder_metadata_bytes(metadata@),
        forall|fields: Seq<FSEFieldEncoderMetadata>|
            bytes@ == #[trigger] record_encoder_metadata_bytes(fields) ==> result is Ok,
{
    let ghost has_target = exists|fields: Seq<FSEFieldEncoderMetadata>|
        bytes@ == #[trigger] record_encoder_metadata_bytes(fields);
    let ghost target: Seq<FSEFieldEncoderMetadata> = if has_target {
        choose|fields: Seq<FSEFieldEncoderMetadata>|
            bytes@ == #[trigger] record_encoder_metadata_bytes(fields)
    } else {
        Seq::empty()
    };
    let mut cursor = ByteCursor::new(bytes);
    proof {
        lemma_auto_spec_u64_to_from_le_bytes();
        if has_target {
            lemma_field_encoders_len(target);
            assert(bytes@.subrange(0, 8) =~= spec_u64_to_le_bytes(target.len() as u64));
            assert(target.subrange(0, target.len() as int) =~= target);
        }
    }
    let field_count = match cursor.read_len() {
        Ok(count) => count,
        Err(error) => return Err(lift(error, "typed_index.record_encoder.field_count")),
    };
    let ghost after_count = cursor.rest();
    proof {
        assert(bytes@ =~= spec_u64_to_le_bytes(field_count as u64) + after_count);
        if has_target {
            assert(after_count =~= field_encoders_bytes(target));
        }
    }
    let mut fields: Vec<FSEFieldEncoderMetadata> = Vec::with_capacity(field_count);
    let mut index: usize = 0;
    while index < field_count
        invariant
            cursor.wf(),
            cursor.bytes@ == bytes@,
            has_target == exists|fields: Seq<FSEFieldEncoderMetadata>|
                bytes@ == #[trigger] record_encoder_metadata_bytes(fields),
            index <= field_count,
            fields@.len() == index,
            after_count == field_encoders_bytes(fields@) + cursor.rest(),
            has_target ==> {
                &&& field_count == target.len()
                &&& cursor.rest() == field_encoders_bytes(
                    target.subrange(index as int, target.len() as int),
                )
                &&& field_encoders_bytes(fields@) == field_encoders_bytes(
                    target.subrange(0, index as int),
                )
            },
        decreases field_count - index,
    {
        let ghost element_target: Option<FSEFieldEncoderMetadata> = if has_target {
            Some(target[index as int])
        } else {
            None
        };
        let ghost before = cursor.rest();
        proof {
            if has_target {
                lemma_field_encoders_first(target, index as int);
                assert(before.subrange(
                    0,
                    field_encoder_metadata_bytes(target[index as int]).len() as int,
                ) =~= field_encoder_metadata_bytes(target[index as int]));
            }
        }
        let metadata = match decode_field_encoder_metadata(&mut cursor, Ghost(element_target)) {
            Ok(metadata) => metadata,
            Err(error) => return Err(error),
        };
        let ghost previous = fields@;
        fields.push(metadata);
        proof {
            assert(fields@.drop_last() =~= previous);
            assert(after_count =~= field_encoders_bytes(fields@) + cursor.rest());
            if has_target {
                let next = target.subrange(0, index + 1);
                assert(next.drop_last() =~= target.subrange(0, index as int));
                assert(cursor.rest() =~= before.subrange(
                    field_encoder_metadata_bytes(metadata).len() as int,
                    before.len() as int,
                ));
                assert(cursor.rest() =~= field_encoders_bytes(
                    target.subrange(index + 1, target.len() as int),
                ));
            }
        }
        index = index + 1;
    }
    if cursor.remaining() != 0 {
        proof {
            if has_target {
                assert(target.subrange(field_count as int, target.len() as int)
                    =~= Seq::<FSEFieldEncoderMetadata>::empty());
            }
        }
        return Err(
            FSETypedQueryIndexArchiveCodecError::TrailingBytes { remaining: cursor.remaining() },
        );
    }
    let metadata = FSERecordEncoderMetadata::new(fields);
    proof {
        assert(cursor.rest() =~= Seq::<u8>::empty());
        assert(bytes@ =~= record_encoder_metadata_bytes(metadata@));
    }
    Ok(metadata)
}

} // verus!
