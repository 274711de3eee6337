use fse_rust::bytes::write_u64;
use fse_rust::data::{FSEField, FSEFieldType, RowId};
use fse_rust::encoding::categorical::{CategoricalDictionaryEncoder, CategoricalDictionaryError};
use fse_rust::encoding::metadata::{FSEFieldEncoderMetadata, FSERecordEncoderMetadata};
use fse_rust::encoding::record::ComposedRecordEncoderFromBatchError;
use fse_rust::id_sets::{smallest_duplicate, sorted_union};
use fse_rust::persistence::compaction::{
    compact_record_batch, compact_record_batch_for_rebuild, FSETypedQueryIndexCompactionError,
};
use fse_rust::persistence::footprint::{
    field_encoder_metadata_archive_byte_count, record_encoder_metadata_archive_byte_count,
};
use fse_rust::persistence::query_index_codec::{
    decode_record_encoder_metadata, encode_record_encoder_metadata,
    FSETypedQueryIndexArchiveCodecError,
};
use fse_rust::persistence::query_index_snapshot::{
    collect_mapped_row_ids, sort_row_ids, validate_row_identity,
    FSETypedQueryIndexArchiveSnapshotError,
};
use fse_rust::persistence::record_batch::{
    FSEFieldArchiveRecord, FSEFieldTypeArchiveTag, FSERecordArchiveRecord,
    FSERecordBatchArchiveSnapshot, FSEValueArchiveRecord,
};
use fse_rust::persistence::row_mapping::{
    validate_leaf_row_id_records, FSEArchiveNodeRowSummary, FSELeafRowIdArchiveRecord,
    FSERowMappedArchiveSnapshotError,
};
use fse_rust::persistence::tombstone::FSETypedRowTombstoneArchiveSnapshot;

fn labels(values: &[&str]) -> Vec<String> {
    values.iter().map(|value| value.to_string()).collect()
}

fn leaf(node_id: u64, row_ids: &[u64]) -> FSELeafRowIdArchiveRecord {
    FSELeafRowIdArchiveRecord { node_id, row_ids: row_ids.to_vec() }
}

#[test]
fn dictionary_codes_are_positions() {
    let encoder = CategoricalDictionaryEncoder::try_new(labels(&["red", "green", "blue"])).unwrap();
    assert_eq!(encoder.code_for_category("red"), Some(0));
    assert_eq!(encoder.code_for_category("blue"), Some(2));
    assert_eq!(encoder.code_for_category("purple"), None);
    assert_eq!(encoder.categories(), &labels(&["red", "green", "blue"])[..]);
    assert_eq!(encoder.field_type(), FSEFieldType::Category);
}

#[test]
fn dictionary_errors() {
    assert_eq!(
        CategoricalDictionaryEncoder::try_new(Vec::new()),
        Err(CategoricalDictionaryError::EmptyDictionary)
    );
    assert_eq!(
        CategoricalDictionaryEncoder::try_new(labels(&["a", ""])),
        Err(CategoricalDictionaryError::EmptyCategory { index: 1 })
    );
    assert_eq!(
        CategoricalDictionaryEncoder::try_new(labels(&["a", "b", "a"])),
        Err(CategoricalDictionaryError::DuplicateCategory { category: "a".to_string() })
    );
}

#[test]
fn record_encoder_metadata_round_trip_and_layout() {
    let metadata = FSERecordEncoderMetadata::new(vec![
        FSEFieldEncoderMetadata::Integer,
        FSEFieldEncoderMetadata::CategoryDictionary { categories: labels(&["x", "yz"]) },
        FSEFieldEncoderMetadata::TimestampMillis,
    ]);
    let bytes = encode_record_encoder_metadata(&metadata);
    let mut expected = Vec::new();
    write_u64(&mut expected, 3);
    expected.push(0);
    expected.push(4);
    write_u64(&mut expected, 2);
    write_u64(&mut expected, 1);
    expected.extend_from_slice(b"x");
    write_u64(&mut expected, 2);
    expected.extend_from_slice(b"yz");
    expected.push(3);
    assert_eq!(bytes, expected);
    assert_eq!(decode_record_encoder_metadata(&bytes), Ok(metadata.clone()));
    assert_eq!(record_encoder_metadata_archive_byte_count(&metadata), Ok(bytes.len() as u64));
}

#[test]
fn record_encoder_metadata_errors() {
    let mut bytes = Vec::new();
    write_u64(&mut bytes, 1);
    bytes.push(9);
    assert_eq!(
        decode_record_encoder_metadata(&bytes),
        Err(FSETypedQueryIndexArchiveCodecError::InvalidFieldEncoderMetadataTag {
            field: "typed_index.record_encoder.field",
            tag: 9,
        })
    );
    let mut bytes = Vec::new();
    write_u64(&mut bytes, 1);
    bytes.push(4);
    write_u64(&mut bytes, 1);
    write_u64(&mut bytes, 2);
    bytes.extend_from_slice(&[0xff, 0xfe]);
    assert!(matches!(
        decode_record_encoder_metadata(&bytes),
        Err(FSETypedQueryIndexArchiveCodecError::InvalidUtf8 { .. })
    ));
    let mut bytes = encode_record_encoder_metadata(&FSERecordEncoderMetadata::new(vec![]));
    bytes.push(0);
    assert_eq!(
        decode_record_encoder_metadata(&bytes),
        Err(FSETypedQueryIndexArchiveCodecError::TrailingBytes { remaining: 1 })
    );
}

#[test]
fn field_encoder_metadata_sizes() {
    assert_eq!(field_encoder_metadata_archive_byte_count(&FSEFieldEncoderMetadata::Float), Ok(1));
    assert_eq!(
        field_encoder_metadata_archive_byte_count(&FSEFieldEncoderMetadata::CategoryDictionary {
            categories: labels(&["a", "bc"]),
        }),
        Ok(1 + 8 + 9 + 10)
    );
    assert_eq!(
        record_encoder_metadata_archive_byte_count(&FSERecordEncoderMetadata::new(vec![])),
        Ok(8)
    );
}

#[test]
fn archive_field_records_follow_runtime_fields() {
    let field = FSEField::new("age".to_string(), FSEFieldType::Integer, true);
    let record = FSEFieldArchiveRecord::from_field(&field);
    assert_eq!(record.name, "age");
    assert_eq!(record.field_type, FSEFieldTypeArchiveTag::Integer);
    assert!(record.nullable);
    assert_eq!(record.to_field(), field);
    for field_type in [
        FSEFieldType::Integer,
        FSEFieldType::Float,
        FSEFieldType::Text,
        FSEFieldType::Boolean,
        FSEFieldType::TimestampMillis,
        FSEFieldType::Category,
    ] {
        assert_eq!(FSEFieldTypeArchiveTag::from_field_type(field_type).to_field_type(), field_type);
    }
}

#[test]
fn row_identity_compares_sorted_row_ids() {
    let leaves = vec![leaf(0, &[3, 1]), leaf(1, &[2])];
    assert_eq!(collect_mapped_row_ids(&leaves), vec![3, 1, 2]);
    assert_eq!(validate_row_identity(&leaves, &[2, 3, 1]), Ok(()));
    assert_eq!(
        validate_row_identity(&leaves, &[1, 2, 4]),
        Err(FSETypedQueryIndexArchiveSnapshotError::RowIdMismatch {
            indexed_row_id: 3,
            batch_row_id: 4,
        })
    );
    assert_eq!(
        validate_row_identity(&leaves, &[1, 2]),
        Err(FSETypedQueryIndexArchiveSnapshotError::RowIdCountMismatch {
            indexed_row_id_count: 3,
            batch_row_id_count: 2,
        })
    );
    assert_eq!(
        validate_row_identity(&[leaf(0, &[1, 1])], &[1, 2]),
        Err(FSETypedQueryIndexArchiveSnapshotError::RowIdMismatch {
            indexed_row_id: 1,
            batch_row_id: 2,
        })
    );
}

#[test]
fn sorting_row_ids() {
    assert_eq!(sort_row_ids(&[5, 1, 4, 1, u64::MAX, 0]), vec![0, 1, 1, 4, 5, u64::MAX]);
    assert_eq!(sort_row_ids(&[]), Vec::<u64>::new());
}

#[test]
fn leaf_row_id_records_must_cover_each_leaf_once() {
    let nodes = vec![
        FSEArchiveNodeRowSummary { id: 0, is_leaf: false, leaf_row_count: 0 },
        FSEArchiveNodeRowSummary { id: 1, is_leaf: true, leaf_row_count: 2 },
        FSEArchiveNodeRowSummary { id: 2, is_leaf: true, leaf_row_count: 1 },
    ];
    assert_eq!(validate_leaf_row_id_records(3, &nodes, &[leaf(1, &[4, 5]), leaf(2, &[6])]), Ok(()));
    assert_eq!(
        validate_leaf_row_id_records(3, &nodes, &[leaf(7, &[])]),
        Err(FSERowMappedArchiveSnapshotError::UnknownNode { node_id: 7, node_count: 3 })
    );
    assert_eq!(
        validate_leaf_row_id_records(3, &nodes, &[leaf(0, &[])]),
        Err(FSERowMappedArchiveSnapshotError::InternalNodeMapping { node_id: 0 })
    );
    assert_eq!(
        validate_leaf_row_id_records(3, &nodes, &[leaf(2, &[6]), leaf(2, &[6])]),
        Err(FSERowMappedArchiveSnapshotError::DuplicateLeafMapping { node_id: 2 })
    );
    assert_eq!(
        validate_leaf_row_id_records(3, &nodes, &[leaf(1, &[4])]),
        Err(FSERowMappedArchiveSnapshotError::LeafRowIdCountMismatch {
            node_id: 1,
            row_id_count: 1,
            leaf_row_count: 2,
        })
    );
    assert_eq!(
        validate_leaf_row_id_records(3, &nodes, &[leaf(1, &[4, 6]), leaf(2, &[6])]),
        Err(FSERowMappedArchiveSnapshotError::DuplicateRowId { row_id: 6 })
    );
    assert_eq!(
        validate_leaf_row_id_records(3, &nodes, &[leaf(1, &[4, 5])]),
        Err(FSERowMappedArchiveSnapshotError::MissingLeafMapping { node_id: 2 })
    );
}

fn batch_with_rows(row_ids: &[u64]) -> FSERecordBatchArchiveSnapshot {
    FSERecordBatchArchiveSnapshot {
        schema_fields: vec![FSEFieldArchiveRecord {
            name: "v".to_string(),
            field_type: FSEFieldTypeArchiveTag::Integer,
            nullable: false,
        }],
        row_ids: row_ids.to_vec(),
        records: row_ids
            .iter()
            .map(|row_id| FSERecordArchiveRecord {
                values: vec![FSEValueArchiveRecord::Integer(*row_id as i64 * 10)],
            })
            .collect(),
    }
}

#[test]
fn compaction_removes_tombstoned_rows_in_order() {
    let batch = batch_with_rows(&[10, 11, 12, 13]);
    let tombstones = FSETypedRowTombstoneArchiveSnapshot::from_row_ids(&[RowId::new(13), RowId::new(11)])
        .unwrap();
    let (compacted, removed) = compact_record_batch(&batch, &tombstones);
    assert_eq!(compacted, batch_with_rows(&[10, 12]));
    assert_eq!(removed, 2);
    assert_eq!(compact_record_batch_for_rebuild(&batch, &tombstones), Ok((batch_with_rows(&[10, 12]), 2)));
}

#[test]
fn compaction_refuses_to_retain_nothing() {
    let batch = batch_with_rows(&[1, 2]);
    let tombstones = FSETypedRowTombstoneArchiveSnapshot { deleted_row_ids: vec![2, 1, 9] };
    assert_eq!(
        compact_record_batch_for_rebuild(&batch, &tombstones),
        Err(FSETypedQueryIndexCompactionError::EmptyRetainedRecordSet {
            base_record_count: 2,
            tombstone_count: 3,
        })
    );
    assert_eq!(
        FSETypedQueryIndexCompactionError::EmptyRetainedRecordSet { base_record_count: 2, tombstone_count: 3 }
            .message(),
        "typed query index compaction retained no records"
    );
}

#[test]
fn id_set_helpers() {
    assert_eq!(sorted_union(&[5, 1, 5], &[3, 1]), vec![1, 3, 5]);
    assert_eq!(smallest_duplicate(&[4, 9, 4, 9, 2]), Some(4));
    assert_eq!(smallest_duplicate(&[4, 9, 2]), None);
}

fn typed_field(name: &str, field_type: FSEFieldTypeArchiveTag) -> FSEFieldArchiveRecord {
    FSEFieldArchiveRecord { name: name.to_string(), field_type, nullable: true }
}

fn category(label: &str) -> FSEValueArchiveRecord {
    FSEValueArchiveRecord::Category(label.to_string())
}

#[test]
fn encoder_metadata_derived_from_batch() {
    let batch = FSERecordBatchArchiveSnapshot {
        schema_fields: vec![
            typed_field("id", FSEFieldTypeArchiveTag::Integer),
            typed_field("color", FSEFieldTypeArchiveTag::Category),
            typed_field("flag", FSEFieldTypeArchiveTag::Boolean),
        ],
        row_ids: vec![1, 2, 3],
        records: vec![
            FSERecordArchiveRecord {
                values: vec![FSEValueArchiveRecord::Integer(1), category("red"), FSEValueArchiveRecord::Boolean(true)],
            },
            FSERecordArchiveRecord {
                values: vec![FSEValueArchiveRecord::Integer(2), category("blue"), FSEValueArchiveRecord::Boolean(false)],
            },
            FSERecordArchiveRecord {
                values: vec![FSEValueArchiveRecord::Integer(3), category("red"), FSEValueArchiveRecord::Boolean(true)],
            },
        ],
    };
    let metadata = FSERecordEncoderMetadata::from_batch(&batch).unwrap();
    assert_eq!(
        metadata,
        FSERecordEncoderMetadata::new(vec![
            FSEFieldEncoderMetadata::Integer,
            FSEFieldEncoderMetadata::CategoryDictionary { categories: labels(&["red", "blue"]) },
            FSEFieldEncoderMetadata::Boolean,
        ])
    );
}

#[test]
fn encoder_metadata_derivation_errors() {
    let mut batch = FSERecordBatchArchiveSnapshot {
        schema_fields: vec![
            typed_field("id", FSEFieldTypeArchiveTag::Integer),
            typed_field("note", FSEFieldTypeArchiveTag::Text),
        ],
        row_ids: vec![1, 2],
        records: vec![
            FSERecordArchiveRecord {
                values: vec![FSEValueArchiveRecord::Integer(1), FSEValueArchiveRecord::Text("a".to_string())],
            },
            FSERecordArchiveRecord {
                values: vec![FSEValueArchiveRecord::Null, FSEValueArchiveRecord::Null],
            },
        ],
    };
    assert_eq!(
        FSERecordEncoderMetadata::from_batch(&batch),
        Err(ComposedRecordEncoderFromBatchError::NullFieldValue { record: 1, field: 0, name: "id".to_string() })
    );
    batch.records[1].values = vec![FSEValueArchiveRecord::Integer(2), FSEValueArchiveRecord::Text("b".to_string())];
    assert_eq!(
        FSERecordEncoderMetadata::from_batch(&batch),
        Err(ComposedRecordEncoderFromBatchError::UnsupportedFieldType {
            field: 1,
            name: "note".to_string(),
            field_type: FSEFieldType::Text,
        })
    );
    let empty_label = FSERecordBatchArchiveSnapshot {
        schema_fields: vec![typed_field("c", FSEFieldTypeArchiveTag::Category)],
        row_ids: vec![1, 2],
        records: vec![
            FSERecordArchiveRecord { values: vec![category("x")] },
            FSERecordArchiveRecord { values: vec![category("")] },
        ],
    };
    assert_eq!(
        FSERecordEncoderMetadata::from_batch(&empty_label),
        Err(ComposedRecordEncoderFromBatchError::CategoryDictionary {
            field: 0,
            name: "c".to_string(),
            source: CategoricalDictionaryError::EmptyCategory { index: 1 },
        })
    );
    let no_records = FSERecordBatchArchiveSnapshot {
        schema_fields: vec![typed_field("c", FSEFieldTypeArchiveTag::Category)],
        row_ids: vec![],
        records: vec![],
    };
    assert_eq!(
        FSERecordEncoderMetadata::from_batch(&no_records),
        Err(ComposedRecordEncoderFromBatchError::CategoryDictionary {
            field: 0,
            name: "c".to_string(),
            source: CategoricalDictionaryError::EmptyDictionary,
        })
    );
}
