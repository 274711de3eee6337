use fse_rust::data::FSEFieldType;
use fse_rust::encoding::error::FSEEncodingError;
use fse_rust::encoding::record::{ComposedRecordEncoderError, ComposedRecordEncoderFromBatchError};
use fse_rust::persistence::maintenance::FSETypedQueryIndexArchiveMaintenanceError;
use fse_rust::persistence::query_index_file::FSETypedQueryIndexArchiveFileError;
use fse_rust::encoding::categorical::CategoricalDictionaryError;
use fse_rust::encoding::metadata::FSERecordEncoderMetadataError;
use fse_rust::cursor::{ByteCursor, CursorError};
use fse_rust::persistence::compaction::FSETombstonedTypedQueryIndexArchiveError;
use fse_rust::persistence::manifest::FSEArchiveManifestError;
use fse_rust::persistence::operations::{
    FSEArchiveAppendOperationMetadataError, FSEArchiveMaintenanceError,
    FSEArchiveRebuildPlanMetadataError,
};
use fse_rust::persistence::payload::FSEArchivePayloadHeaderError;
use fse_rust::persistence::query_index_codec::FSETypedQueryIndexArchiveCodecError;
use fse_rust::persistence::query_index_file::FSETypedQueryIndexArchiveError;
use fse_rust::persistence::query_index_snapshot::FSETypedQueryIndexArchiveSnapshotError;
use fse_rust::persistence::row_mapped_codec::FSERowMappedArchiveCodecError;
use fse_rust::persistence::tombstone::FSETypedRowTombstoneArchiveSnapshotError;
use fse_rust::persistence::tombstone_file::FSETypedRowTombstoneArchiveError;
use fse_rust::text::str_eq;

#[test]
fn wrapped_errors_report_the_inner_message() {
    let inner = FSETypedRowTombstoneArchiveSnapshotError::DuplicateRowId { row_id: 3 };
    assert_eq!(inner.message(), "typed row tombstone archive row identifiers must be unique");
    let outer = FSETombstonedTypedQueryIndexArchiveError::Tombstones(
        FSETypedRowTombstoneArchiveError::Snapshot(inner),
    );
    assert_eq!(outer.message(), inner.message());
    let snapshot = FSETypedQueryIndexArchiveSnapshotError::RowIdCountMismatch {
        indexed_row_id_count: 1,
        batch_row_id_count: 2,
    };
    assert_eq!(snapshot.message(), "typed query index archive row-id counts must match");
    let archive = FSETypedQueryIndexArchiveError::Snapshot(snapshot.clone());
    assert_eq!(archive.message(), snapshot.message());
    let tombstoned = FSETombstonedTypedQueryIndexArchiveError::QueryIndex(archive);
    assert_eq!(tombstoned.message(), "typed query index archive row-id counts must match");
}

#[test]
fn tombstone_append_messages() {
    assert_eq!(
        FSETypedRowTombstoneArchiveError::EmptyAppend.message(),
        "typed row tombstone archive append requires row identifiers"
    );
}

#[test]
fn codec_messages() {
    assert_eq!(
        FSERowMappedArchiveCodecError::TrailingBytes { remaining: 1 }.message(),
        "row-mapped archive contains trailing bytes"
    );
    assert_eq!(
        FSETypedQueryIndexArchiveCodecError::CompactBatchEncoderFieldCountMismatch {
            schema_field_count: 1,
            encoder_field_count: 2,
        }
        .message(),
        "compact typed record batch field count does not match encoder metadata"
    );
    assert_eq!(
        FSETypedQueryIndexArchiveCodecError::InvalidCompactBatchNullMode { field: "f", mode: 3 }
            .message(),
        "compact typed record batch null bitmap mode is invalid"
    );
    assert_eq!(
        FSEArchivePayloadHeaderError::UnknownPayloadKind { value: 9 }.message(),
        "archive payload kind tag is invalid"
    );
}

#[test]
fn metadata_messages() {
    assert_eq!(FSEArchiveManifestError::ZeroDimensions.message(), "archive dimensions must be greater than zero");
    assert_eq!(
        FSEArchiveMaintenanceError::ZeroBaseRecordCount.message(),
        "archive maintenance base record count must be greater than zero"
    );
    let append = FSEArchiveAppendOperationMetadataError::ZeroAppendedRecordCount;
    assert_eq!(FSEArchiveRebuildPlanMetadataError::Append(append.clone()).message(), append.message());
}

#[test]
fn cursor_reads_little_endian_fields() {
    let bytes = [1u8, 2, 0, 3, 0, 0, 0, 4, 0, 0, 0, 0, 0, 0, 0];
    let mut cursor = ByteCursor::new(&bytes);
    assert_eq!(cursor.read_u8(), Ok(1));
    assert_eq!(cursor.read_u16(), Ok(2));
    assert_eq!(cursor.read_u32(), Ok(3));
    assert_eq!(cursor.read_u64(), Ok(4));
    assert_eq!(cursor.remaining(), 0);
    assert_eq!(cursor.read_u8(), Err(CursorError::UnexpectedEnd { needed: 1, remaining: 0 }));
}

#[test]
fn cursor_reads_strings() {
    let mut bytes = 2u64.to_le_bytes().to_vec();
    bytes.extend_from_slice(&"héh".as_bytes()[..2]);
    let mut good = 4u64.to_le_bytes().to_vec();
    good.extend_from_slice("héh".as_bytes());
    let mut cursor = ByteCursor::new(&good);
    assert_eq!(cursor.read_string(), Ok("héh".to_string()));
    let mut cursor = ByteCursor::new(&bytes);
    assert!(matches!(cursor.read_string(), Err(CursorError::InvalidUtf8 { .. })));
}

#[test]
fn text_equality() {
    assert!(str_eq("abc", "abc"));
    assert!(!str_eq("abc", "abd"));
    assert!(!str_eq("abc", "ab"));
}

#[test]
fn encoder_metadata_errors_report_their_own_text() {
    let count = FSERecordEncoderMetadataError::FieldCountMismatch { metadata_count: 1, field_count: 2 };
    assert_eq!(count.message(), "record encoder metadata field count does not match the schema");
    let dictionary = FSERecordEncoderMetadataError::CategoryDictionary {
        field: 0,
        name: "color".to_string(),
        source: CategoricalDictionaryError::EmptyDictionary,
    };
    assert_eq!(dictionary.message(), "categorical dictionary must contain at least one category");
    let wrapped = FSETypedQueryIndexArchiveCodecError::EncoderMetadata(dictionary);
    assert_eq!(wrapped.message(), "categorical dictionary must contain at least one category");
}

#[test]
fn error_descriptions_carry_the_values_they_name() {
    let count = FSERecordEncoderMetadataError::FieldCountMismatch { metadata_count: 1, field_count: 12 };
    assert_eq!(count.description(), "record encoder metadata has 1 fields but schema requires 12");
    let types = FSERecordEncoderMetadataError::FieldTypeMismatch {
        field: 2,
        name: "price".to_string(),
        expected: FSEFieldType::Float,
        actual: FSEFieldType::TimestampMillis,
    };
    assert_eq!(types.description(), "field 'price' metadata expected Float but found TimestampMillis");
    assert_eq!(
        CategoricalDictionaryError::EmptyCategory { index: 307 }.description(),
        "category 307 must not be empty"
    );
    assert_eq!(
        CategoricalDictionaryError::DuplicateCategory { category: "red".to_string() }.description(),
        "category 'red' appears more than once"
    );
    assert_eq!(
        ComposedRecordEncoderError::EncoderCountMismatch { encoder_count: 0, field_count: 3 }.description(),
        "record encoder has 0 field encoders but schema requires 3"
    );
    assert_eq!(
        ComposedRecordEncoderError::FieldTypeMismatch {
            field: 0,
            name: "id".to_string(),
            expected: FSEFieldType::Integer,
            actual: FSEFieldType::Text,
        }
        .description(),
        "field 'id' encoder expected Integer but found Text"
    );
    assert_eq!(
        ComposedRecordEncoderFromBatchError::NullFieldValue { record: 40, field: 1, name: "tag".to_string() }
            .description(),
        "record 40 field 'tag' is null and has no derived encoder"
    );
    assert_eq!(
        ComposedRecordEncoderFromBatchError::UnsupportedFieldType {
            field: 1,
            name: "note".to_string(),
            field_type: FSEFieldType::Text,
        }
        .description(),
        "field 'note' with type Text has no derived encoder"
    );
    assert_eq!(
        FSEEncodingError::FieldTypeMismatch { expected: FSEFieldType::Boolean, actual: FSEFieldType::Category }
            .description(),
        "encoder expected Boolean but found Category"
    );
    assert_eq!(FSEEncodingError::NullValue.description(), "encoder cannot encode null value");
    let wrapped = FSETypedQueryIndexArchiveMaintenanceError::LoadIndex(FSETypedQueryIndexArchiveError::File(
        FSETypedQueryIndexArchiveFileError::Codec(FSETypedQueryIndexArchiveCodecError::EncoderMetadata(count)),
    ));
    assert_eq!(wrapped.description(), "record encoder metadata has 1 fields but schema requires 12");
    let plain = FSETypedQueryIndexArchiveCodecError::TrailingBytes { remaining: 3 };
    assert_eq!(plain.description(), "typed query index archive contains trailing bytes");
}
