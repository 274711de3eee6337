use fse_rust::bytes::write_u64;
use fse_rust::compact::write_compact_u64_vec;
use fse_rust::encoding::metadata::{FSEFieldEncoderMetadata, FSERecordEncoderMetadata};
use fse_rust::persistence::batch_section::{
    decode_columnar_typed_query_index_record_batch_section,
    decode_compact_typed_query_index_record_batch_section,
    decode_typed_query_index_record_batch_section, encode_typed_query_index_record_batch_section,
    write_compact_batch_fields, write_compact_category_code, write_compact_i64,
    CompactBatchRecordLayout,
    COMPACT_TYPED_BATCH_SECTION_V2_MAGIC, COMPACT_TYPED_BATCH_SECTION_V5_MAGIC,
};
use fse_rust::persistence::footprint::{
    typed_query_index_archive_section_footprint_from_file_bytes,
    typed_query_index_archive_section_footprint_from_parts, FSETypedQueryIndexArchiveFootprintError,
};
use fse_rust::persistence::payload::{
    encode_archive_payload, FSEArchivePayloadHeaderError, FSEArchivePayloadKind,
};
use fse_rust::persistence::query_index_codec::{
    encode_record_encoder_metadata, FSETypedQueryIndexArchiveCodecError,
};
use fse_rust::persistence::query_index_layout::{
    decode_typed_query_index_archive_parts, encode_typed_query_index_archive_parts,
};
use fse_rust::persistence::record_batch::{
    FSEFieldArchiveRecord, FSEFieldTypeArchiveTag, FSERecordArchiveRecord,
    FSERecordBatchArchiveSnapshot, FSEValueArchiveRecord,
};
use fse_rust::persistence::record_batch_codec::{
    decode_typed_record_batch_archive_snapshot, encode_typed_record_batch_archive_snapshot,
    FSETypedRecordBatchArchiveCodecError,
};

fn field(name: &str, field_type: FSEFieldTypeArchiveTag, nullable: bool) -> FSEFieldArchiveRecord {
    FSEFieldArchiveRecord { name: name.to_string(), field_type, nullable }
}

fn sample_batch() -> FSERecordBatchArchiveSnapshot {
    FSERecordBatchArchiveSnapshot {
        schema_fields: vec![
            field("id", FSEFieldTypeArchiveTag::Integer, false),
            field("name", FSEFieldTypeArchiveTag::Text, true),
            field("color", FSEFieldTypeArchiveTag::Category, false),
            field("flag", FSEFieldTypeArchiveTag::Boolean, true),
            field("at", FSEFieldTypeArchiveTag::TimestampMillis, false),
            field("score", FSEFieldTypeArchiveTag::Float, true),
        ],
        row_ids: vec![1000, 1001, 1005],
        records: vec![
            FSERecordArchiveRecord {
                values: vec![
                    FSEValueArchiveRecord::Integer(-5),
                    FSEValueArchiveRecord::Text("ada".to_string()),
                    FSEValueArchiveRecord::Category("red".to_string()),
                    FSEValueArchiveRecord::Boolean(true),
                    FSEValueArchiveRecord::TimestampMillis(1_700_000_000_000),
                    FSEValueArchiveRecord::Float(1.5f64.to_bits()),
                ],
            },
            FSERecordArchiveRecord {
                values: vec![
                    FSEValueArchiveRecord::Integer(i64::MAX),
                    FSEValueArchiveRecord::Null,
                    FSEValueArchiveRecord::Category("blue".to_string()),
                    FSEValueArchiveRecord::Null,
                    FSEValueArchiveRecord::TimestampMillis(-1),
                    FSEValueArchiveRecord::Null,
                ],
            },
            FSERecordArchiveRecord {
                values: vec![
                    FSEValueArchiveRecord::Integer(i64::MIN),
                    FSEValueArchiveRecord::Text(String::new()),
                    FSEValueArchiveRecord::Category("red".to_string()),
                    FSEValueArchiveRecord::Boolean(false),
                    FSEValueArchiveRecord::TimestampMillis(0),
                    FSEValueArchiveRecord::Float((-0.25f64).to_bits()),
                ],
            },
        ],
    }
}

fn sample_encoder() -> FSERecordEncoderMetadata {
    FSERecordEncoderMetadata::new(vec![
        FSEFieldEncoderMetadata::Integer,
        FSEFieldEncoderMetadata::Integer,
        FSEFieldEncoderMetadata::CategoryDictionary {
            categories: vec!["red".to_string(), "green".to_string(), "blue".to_string()],
        },
        FSEFieldEncoderMetadata::Boolean,
        FSEFieldEncoderMetadata::TimestampMillis,
        FSEFieldEncoderMetadata::Float,
    ])
}

#[test]
fn typed_record_batch_round_trip() {
    let batch = sample_batch();
    let bytes = encode_typed_record_batch_archive_snapshot(&batch);
    assert_eq!(decode_typed_record_batch_archive_snapshot(&bytes), Ok(batch));
}

#[test]
fn typed_record_batch_layout_of_a_small_batch() {
    let batch = FSERecordBatchArchiveSnapshot {
        schema_fields: vec![field("a", FSEFieldTypeArchiveTag::Boolean, true)],
        row_ids: vec![3],
        records: vec![FSERecordArchiveRecord { values: vec![FSEValueArchiveRecord::Null] }],
    };
    let mut expected = Vec::new();
    write_u64(&mut expected, 1);
    write_u64(&mut expected, 1);
    expected.extend_from_slice(b"a");
    expected.extend_from_slice(&[3, 1]);
    write_u64(&mut expected, 1);
    write_u64(&mut expected, 3);
    write_u64(&mut expected, 1);
    write_u64(&mut expected, 1);
    expected.push(0);
    assert_eq!(encode_typed_record_batch_archive_snapshot(&batch), expected);
}

#[test]
fn typed_record_batch_decoding_errors() {
    let batch = sample_batch();
    let mut bytes = encode_typed_record_batch_archive_snapshot(&batch);
    bytes.push(9);
    assert_eq!(
        decode_typed_record_batch_archive_snapshot(&bytes),
        Err(FSETypedRecordBatchArchiveCodecError::TrailingBytes { remaining: 1 })
    );
    assert_eq!(
        decode_typed_record_batch_archive_snapshot(&[1, 2, 3]),
        Err(FSETypedRecordBatchArchiveCodecError::UnexpectedEndOfArchive {
            field: "typed_batch.schema.field_count",
            needed: 8,
            remaining: 3,
        })
    );
}

#[test]
fn columnar_section_round_trip() {
    let batch = sample_batch();
    let encoder = sample_encoder();
    let bytes = encode_typed_query_index_record_batch_section(&batch, &encoder).unwrap();
    assert_eq!(&bytes[..8], &COMPACT_TYPED_BATCH_SECTION_V5_MAGIC);
    assert_eq!(&bytes[..8], b"FSECBT05");
    assert_eq!(
        decode_columnar_typed_query_index_record_batch_section(&bytes, &encoder),
        Ok(batch.clone())
    );
    assert_eq!(decode_typed_query_index_record_batch_section(&bytes, &encoder), Ok(batch));
}

#[test]
fn columnar_section_layout_of_a_small_batch() {
    let batch = FSERecordBatchArchiveSnapshot {
        schema_fields: vec![field("a", FSEFieldTypeArchiveTag::Integer, false)],
        row_ids: vec![7],
        records: vec![FSERecordArchiveRecord { values: vec![FSEValueArchiveRecord::Integer(-1)] }],
    };
    let encoder = FSERecordEncoderMetadata::new(vec![FSEFieldEncoderMetadata::Integer]);
    let mut expected = b"FSECBT05".to_vec();
    write_u64(&mut expected, 1);
    write_u64(&mut expected, 1);
    expected.extend_from_slice(b"a");
    expected.extend_from_slice(&[0, 0]);
    expected.push(1);
    write_u64(&mut expected, 1);
    expected.push(7);
    write_u64(&mut expected, 1);
    expected.push(0);
    expected.push(1);
    assert_eq!(encode_typed_query_index_record_batch_section(&batch, &encoder), Ok(expected));
}

#[test]
fn columnar_section_encoding_errors() {
    let batch = sample_batch();
    let short_encoder = FSERecordEncoderMetadata::new(vec![FSEFieldEncoderMetadata::Integer]);
    assert_eq!(
        encode_typed_query_index_record_batch_section(&batch, &short_encoder),
        Err(FSETypedQueryIndexArchiveCodecError::CompactBatchEncoderFieldCountMismatch {
            schema_field_count: 6,
            encoder_field_count: 1,
        })
    );
    let mut encoder_fields = sample_encoder().fields().to_vec();
    encoder_fields[2] = FSEFieldEncoderMetadata::CategoryDictionary { categories: vec!["red".to_string()] };
    assert_eq!(
        encode_typed_query_index_record_batch_section(&batch, &FSERecordEncoderMetadata::new(encoder_fields)),
        Err(FSETypedQueryIndexArchiveCodecError::CompactBatchCategoryNotInEncoderMetadata {
            field_index: 2,
            category: "blue".to_string(),
        })
    );
    let mut encoder_fields = sample_encoder().fields().to_vec();
    encoder_fields[2] = FSEFieldEncoderMetadata::Integer;
    assert_eq!(
        encode_typed_query_index_record_batch_section(&batch, &FSERecordEncoderMetadata::new(encoder_fields)),
        Err(FSETypedQueryIndexArchiveCodecError::CompactBatchCategoryEncoderMismatch { field_index: 2 })
    );
    let mut mistyped = sample_batch();
    mistyped.records[1].values[0] = FSEValueArchiveRecord::Boolean(true);
    assert_eq!(
        encode_typed_query_index_record_batch_section(&mistyped, &sample_encoder()),
        Err(FSETypedQueryIndexArchiveCodecError::CompactBatchColumnValueTypeMismatch { field_index: 0 })
    );
}

#[test]
fn section_decoder_checks_field_count_against_encoder() {
    let batch = sample_batch();
    let bytes = encode_typed_query_index_record_batch_section(&batch, &sample_encoder()).unwrap();
    let short_encoder = FSERecordEncoderMetadata::new(vec![FSEFieldEncoderMetadata::Integer]);
    assert_eq!(
        decode_typed_query_index_record_batch_section(&bytes, &short_encoder),
        Err(FSETypedQueryIndexArchiveCodecError::CompactBatchEncoderFieldCountMismatch {
            schema_field_count: 6,
            encoder_field_count: 1,
        })
    );
}

#[test]
fn section_decoder_falls_back_to_the_typed_batch_layout() {
    let batch = sample_batch();
    let bytes = encode_typed_record_batch_archive_snapshot(&batch);
    assert_eq!(decode_typed_query_index_record_batch_section(&bytes, &sample_encoder()), Ok(batch));
    assert_eq!(
        decode_typed_query_index_record_batch_section(&[1], &sample_encoder()),
        Err(FSETypedQueryIndexArchiveCodecError::BatchCodec(
            FSETypedRecordBatchArchiveCodecError::UnexpectedEndOfArchive {
                field: "typed_batch.schema.field_count",
                needed: 8,
                remaining: 1,
            }
        ))
    );
}

#[test]
fn row_oriented_layout_with_raw_row_ids() {
    let mut bytes = COMPACT_TYPED_BATCH_SECTION_V2_MAGIC.to_vec();
    write_u64(&mut bytes, 1);
    write_u64(&mut bytes, 1);
    bytes.extend_from_slice(b"n");
    bytes.extend_from_slice(&[0, 1]);
    write_u64(&mut bytes, 2);
    write_u64(&mut bytes, 4);
    write_u64(&mut bytes, 9);
    write_u64(&mut bytes, 2);
    bytes.push(1);
    bytes.extend_from_slice(&(-3i64).to_le_bytes());
    bytes.push(0);
    let encoder = FSERecordEncoderMetadata::new(vec![FSEFieldEncoderMetadata::Integer]);
    let expected = FSERecordBatchArchiveSnapshot {
        schema_fields: vec![field("n", FSEFieldTypeArchiveTag::Integer, true)],
        row_ids: vec![4, 9],
        records: vec![
            FSERecordArchiveRecord { values: vec![FSEValueArchiveRecord::Integer(-3)] },
            FSERecordArchiveRecord { values: vec![FSEValueArchiveRecord::Null] },
        ],
    };
    assert_eq!(decode_typed_query_index_record_batch_section(&bytes, &encoder), Ok(expected.clone()));
    assert_eq!(
        decode_compact_typed_query_index_record_batch_section(
            &bytes,
            &encoder,
            CompactBatchRecordLayout::FixedFieldCountRawRowIds
        ),
        Ok(expected)
    );
}

#[test]
fn compact_layouts_describe_themselves() {
    assert_eq!(&CompactBatchRecordLayout::LegacyValueCount.magic(), b"FSECBT01");
    assert_eq!(&CompactBatchRecordLayout::ColumnarCompactValues.magic(), b"FSECBT05");
    assert!(!CompactBatchRecordLayout::LegacyValueCount.uses_fixed_field_count());
    assert!(CompactBatchRecordLayout::FixedFieldCountRawRowIds.uses_fixed_field_count());
    assert!(!CompactBatchRecordLayout::FixedFieldCountRawRowIds.uses_compact_row_ids());
    assert!(CompactBatchRecordLayout::FixedFieldCountCompactRowIds.uses_compact_row_ids());
    assert!(!CompactBatchRecordLayout::FixedFieldCountCompactRowIds.uses_compact_signed_values());
    assert!(CompactBatchRecordLayout::FixedFieldCountCompactRowIdsCompactSignedValues
        .uses_compact_signed_values());
}

#[test]
fn category_codes_are_as_wide_as_the_dictionary_needs() {
    let mut out = Vec::new();
    write_compact_category_code(&mut out, 256, 255);
    assert_eq!(out, vec![255]);
    let mut out = Vec::new();
    write_compact_category_code(&mut out, 257, 256);
    assert_eq!(out, vec![0, 1]);
    let mut out = Vec::new();
    write_compact_category_code(&mut out, 65_537, 65_536);
    assert_eq!(out, vec![0, 0, 1, 0]);
}

#[test]
fn compact_signed_values_are_zig_zag_varints() {
    let mut out = Vec::new();
    write_compact_i64(&mut out, -1);
    write_compact_i64(&mut out, 64);
    assert_eq!(out, vec![1, 0x80, 0x01]);
}

#[test]
fn typed_query_index_archive_parts_round_trip() {
    let index = vec![3u8, 1, 4, 1, 5];
    let batch = sample_batch();
    let encoder = sample_encoder();
    let bytes = encode_typed_query_index_archive_parts(&index, &batch, &encoder).unwrap();
    let section = encode_typed_query_index_record_batch_section(&batch, &encoder).unwrap();
    let metadata = encode_record_encoder_metadata(&encoder);
    let mut expected = Vec::new();
    write_u64(&mut expected, index.len() as u64);
    expected.extend_from_slice(&index);
    write_u64(&mut expected, section.len() as u64);
    expected.extend_from_slice(&section);
    write_u64(&mut expected, metadata.len() as u64);
    expected.extend_from_slice(&metadata);
    assert_eq!(bytes, expected);
    assert_eq!(decode_typed_query_index_archive_parts(&bytes), Ok((index, batch, encoder)));
}

#[test]
fn typed_query_index_archive_parts_errors() {
    let batch = sample_batch();
    let short_encoder = FSERecordEncoderMetadata::new(vec![FSEFieldEncoderMetadata::Integer]);
    assert_eq!(
        encode_typed_query_index_archive_parts(&[], &batch, &short_encoder),
        Err(FSETypedQueryIndexArchiveCodecError::CompactBatchEncoderFieldCountMismatch {
            schema_field_count: 6,
            encoder_field_count: 1,
        })
    );
    let mut bytes = encode_typed_query_index_archive_parts(&[7], &batch, &sample_encoder()).unwrap();
    bytes.push(0);
    assert_eq!(
        decode_typed_query_index_archive_parts(&bytes),
        Err(FSETypedQueryIndexArchiveCodecError::TrailingBytes { remaining: 1 })
    );
    let mut truncated = Vec::new();
    write_u64(&mut truncated, 0);
    write_u64(&mut truncated, 4);
    assert_eq!(
        decode_typed_query_index_archive_parts(&truncated),
        Err(FSETypedQueryIndexArchiveCodecError::UnexpectedEndOfArchive {
            field: "typed_index.record_batch",
            needed: 4,
            remaining: 0,
        })
    );
}

#[test]
fn section_footprint_from_parts_counts_each_section() {
    let index = vec![3u8, 1, 4, 1, 5];
    let batch = sample_batch();
    let encoder = sample_encoder();
    let payload = encode_typed_query_index_archive_parts(&index, &batch, &encoder).unwrap();
    let section = encode_typed_query_index_record_batch_section(&batch, &encoder).unwrap();
    let metadata = encode_record_encoder_metadata(&encoder);
    let footprint =
        typed_query_index_archive_section_footprint_from_parts(&index, &batch, &encoder).unwrap();
    assert_eq!(footprint.payload_header_bytes, 13);
    assert_eq!(footprint.row_mapped_index_section_bytes, 5);
    assert_eq!(footprint.typed_record_batch_section_bytes, section.len() as u64);
    assert_eq!(footprint.record_encoder_metadata_section_bytes, metadata.len() as u64);
    assert_eq!(footprint.section_framing_bytes, 24);
    assert_eq!(footprint.typed_query_index_payload_bytes, payload.len() as u64);
    assert_eq!(footprint.total_archive_bytes, payload.len() as u64 + 13);
}

#[test]
fn section_footprint_from_parts_reports_batch_errors() {
    let batch = sample_batch();
    let short_encoder = FSERecordEncoderMetadata::new(vec![FSEFieldEncoderMetadata::Integer]);
    assert_eq!(
        typed_query_index_archive_section_footprint_from_parts(&[], &batch, &short_encoder),
        Err(FSETypedQueryIndexArchiveFootprintError::TypedQueryIndexArchive(
            FSETypedQueryIndexArchiveCodecError::CompactBatchEncoderFieldCountMismatch {
                schema_field_count: 6,
                encoder_field_count: 1,
            }
        ))
    );
}

fn row_layout_bytes(batch: &FSERecordBatchArchiveSnapshot, layout: CompactBatchRecordLayout) -> Vec<u8> {
    let categories = ["red", "green", "blue"];
    let mut out = layout.magic().to_vec();
    write_u64(&mut out, batch.schema_fields.len() as u64);
    write_compact_batch_fields(&mut out, &batch.schema_fields);
    if layout.uses_compact_row_ids() {
        write_compact_u64_vec(&mut out, &batch.row_ids);
    } else {
        write_u64(&mut out, batch.row_ids.len() as u64);
        for id in &batch.row_ids {
            write_u64(&mut out, *id);
        }
    }
    write_u64(&mut out, batch.records.len() as u64);
    for record in &batch.records {
        if !layout.uses_fixed_field_count() {
            write_u64(&mut out, record.values.len() as u64);
        }
        for value in &record.values {
            match value {
                FSEValueArchiveRecord::Null => out.push(0),
                FSEValueArchiveRecord::Integer(v) | FSEValueArchiveRecord::TimestampMillis(v) => {
                    out.push(if matches!(value, FSEValueArchiveRecord::Integer(_)) { 1 } else { 5 });
                    if layout.uses_compact_signed_values() {
                        write_compact_i64(&mut out, *v);
                    } else {
                        out.extend_from_slice(&v.to_le_bytes());
                    }
                }
                FSEValueArchiveRecord::Float(bits) => {
                    out.push(2);
                    write_u64(&mut out, *bits);
                }
                FSEValueArchiveRecord::Text(text) => {
                    out.push(3);
                    write_u64(&mut out, text.len() as u64);
                    out.extend_from_slice(text.as_bytes());
                }
                FSEValueArchiveRecord::Boolean(flag) => {
                    out.push(4);
                    out.push(u8::from(*flag));
                }
                FSEValueArchiveRecord::Category(label) => {
                    out.push(6);
                    let code = categories.iter().position(|c| c == label).unwrap() as u64;
                    if layout.uses_fixed_field_count() {
                        write_compact_category_code(&mut out, categories.len(), code);
                    } else {
                        write_u64(&mut out, code);
                    }
                }
            }
        }
    }
    out
}

#[test]
fn row_layouts_decode_back_to_the_batch() {
    let batch = sample_batch();
    let encoder = sample_encoder();
    for layout in [
        CompactBatchRecordLayout::LegacyValueCount,
        CompactBatchRecordLayout::FixedFieldCountRawRowIds,
        CompactBatchRecordLayout::FixedFieldCountCompactRowIds,
        CompactBatchRecordLayout::FixedFieldCountCompactRowIdsCompactSignedValues,
    ] {
        let bytes = row_layout_bytes(&batch, layout);
        assert_eq!(
            decode_compact_typed_query_index_record_batch_section(&bytes, &encoder, layout),
            Ok(batch.clone())
        );
        assert_eq!(decode_typed_query_index_record_batch_section(&bytes, &encoder), Ok(batch.clone()));
    }
}

#[test]
fn row_layout_reports_trailing_bytes() {
    let batch = sample_batch();
    let encoder = sample_encoder();
    let mut bytes = row_layout_bytes(&batch, CompactBatchRecordLayout::FixedFieldCountCompactRowIds);
    bytes.push(9);
    assert_eq!(
        decode_typed_query_index_record_batch_section(&bytes, &encoder),
        Err(FSETypedQueryIndexArchiveCodecError::TrailingBytes { remaining: 1 })
    );
}

#[test]
fn file_section_footprint_total_is_the_file_size() {
    let index = vec![3u8, 1, 4, 1, 5];
    let batch = sample_batch();
    let encoder = sample_encoder();
    let payload = encode_typed_query_index_archive_parts(&index, &batch, &encoder).unwrap();
    let file = encode_archive_payload(FSEArchivePayloadKind::TypedQueryIndex, &payload);
    let path = std::path::PathBuf::from("index.fse");
    let footprint = typed_query_index_archive_section_footprint_from_file_bytes(&path, &file).unwrap();
    assert_eq!(footprint.total_archive_bytes, file.len() as u64);
    assert_eq!(footprint.payload_header_bytes, 13);
    assert_eq!(footprint.typed_query_index_payload_bytes, payload.len() as u64);
    assert_eq!(
        Ok(footprint),
        typed_query_index_archive_section_footprint_from_parts(&index, &batch, &encoder)
    );
}

#[test]
fn file_section_footprint_reports_a_short_file() {
    let index = vec![3u8];
    let payload =
        encode_typed_query_index_archive_parts(&index, &sample_batch(), &sample_encoder()).unwrap();
    let mut file = encode_archive_payload(FSEArchivePayloadKind::TypedQueryIndex, &payload);
    file.extend_from_slice(&[0, 0]);
    let path = std::path::PathBuf::from("index.fse");
    assert!(matches!(
        typed_query_index_archive_section_footprint_from_file_bytes(&path, &file),
        Err(FSETypedQueryIndexArchiveFootprintError::TypedQueryIndexArchive(_))
    ));
}

#[test]
fn file_section_footprint_reports_payload_errors() {
    let path = std::path::PathBuf::from("index.fse");
    assert_eq!(
        typed_query_index_archive_section_footprint_from_file_bytes(&path, b"NOTFSE!!rest"),
        Err(FSETypedQueryIndexArchiveFootprintError::Payload(
            FSEArchivePayloadHeaderError::InvalidPayloadMagic { actual: *b"NOTFSE!!" }
        ))
    );
}

#[test]
fn row_layout_category_code_past_the_dictionary_is_refused() {
    let encoder = FSERecordEncoderMetadata::new(vec![FSEFieldEncoderMetadata::CategoryDictionary {
        categories: vec!["a".to_string(), "b".to_string()],
    }]);
    let mut bytes = CompactBatchRecordLayout::FixedFieldCountRawRowIds.magic().to_vec();
    write_u64(&mut bytes, 1);
    write_compact_batch_fields(&mut bytes, &[field("c", FSEFieldTypeArchiveTag::Category, false)]);
    write_u64(&mut bytes, 0);
    write_u64(&mut bytes, 1);
    bytes.extend_from_slice(&[6, 2]);
    assert_eq!(
        decode_typed_query_index_record_batch_section(&bytes, &encoder),
        Err(FSETypedQueryIndexArchiveCodecError::CompactBatchCategoryCodeOutOfRange {
            field_index: 0,
            code: 2,
            category_count: 2,
        })
    );
}

#[test]
fn columnar_section_refuses_trailing_and_short_input() {
    let batch = sample_batch();
    let encoder = sample_encoder();
    let mut bytes = encode_typed_query_index_record_batch_section(&batch, &encoder).unwrap();
    assert_eq!(
        decode_columnar_typed_query_index_record_batch_section(&bytes, &encoder),
        Ok(batch.clone())
    );
    bytes.extend_from_slice(&[0, 0]);
    assert_eq!(
        decode_columnar_typed_query_index_record_batch_section(&bytes, &encoder),
        Err(FSETypedQueryIndexArchiveCodecError::TrailingBytes { remaining: 2 })
    );
    assert_eq!(
        decode_columnar_typed_query_index_record_batch_section(&[1, 2, 3], &encoder),
        Err(FSETypedQueryIndexArchiveCodecError::UnexpectedEndOfArchive {
            field: "typed_index.record_batch.compact_magic",
            needed: 8,
            remaining: 3,
        })
    );
}

#[test]
fn typed_record_batch_refuses_bytes_that_no_batch_encodes_to() {
    let mut bytes = Vec::new();
    write_u64(&mut bytes, 0);
    write_u64(&mut bytes, 0);
    write_u64(&mut bytes, 1);
    write_u64(&mut bytes, 1);
    let mut boolean = bytes.clone();
    boolean.extend_from_slice(&[4, 2]);
    assert_eq!(
        decode_typed_record_batch_archive_snapshot(&boolean),
        Err(FSETypedRecordBatchArchiveCodecError::InvalidBoolean { field: "typed_batch.record.value", value: 2 })
    );
    let mut tag = bytes.clone();
    tag.push(9);
    assert_eq!(
        decode_typed_record_batch_archive_snapshot(&tag),
        Err(FSETypedRecordBatchArchiveCodecError::InvalidValueTag { field: "typed_batch.record.value", value: 9 })
    );
}
