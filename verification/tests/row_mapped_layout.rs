use fse_rust::bytes::{write_u64, write_u64_vec};
use fse_rust::persistence::row_mapped_codec::FSERowMappedArchiveCodecError;
use fse_rust::persistence::row_mapped_layout::{
    decode_row_mapped_archive_parts, encode_row_mapped_archive_parts, ROW_MAPPED_ARCHIVE_V2_MAGIC,
};
use fse_rust::persistence::row_mapping::FSELeafRowIdArchiveRecord;

fn record(node_id: u64, row_ids: &[u64]) -> FSELeafRowIdArchiveRecord {
    FSELeafRowIdArchiveRecord { node_id, row_ids: row_ids.to_vec() }
}

#[test]
fn row_mapped_parts_round_trip() {
    let index = vec![9u8, 8, 7];
    let records = vec![
        record(3, &[1000, 1001, 1002]),
        record(4, &[]),
        record(5, &[7, 3, 100]),
        record(6, &[u64::MAX, 0]),
    ];
    let bytes = encode_row_mapped_archive_parts(&index, &records);
    assert_eq!(&bytes[..8], &ROW_MAPPED_ARCHIVE_V2_MAGIC);
    let (decoded_index, decoded_records) = decode_row_mapped_archive_parts(&bytes).unwrap();
    assert_eq!(decoded_index, index);
    assert_eq!(decoded_records, records);
}

#[test]
fn row_mapped_parts_exact_bytes() {
    let bytes = encode_row_mapped_archive_parts(&[0xaa], &[record(2, &[1, 2])]);
    let mut expected = b"FSERMV02".to_vec();
    write_u64(&mut expected, 1);
    expected.push(0xaa);
    write_u64(&mut expected, 1);
    write_u64(&mut expected, 2);
    expected.push(1);
    write_u64(&mut expected, 2);
    expected.extend_from_slice(&[1, 2]);
    assert_eq!(bytes, expected);
}

#[test]
fn legacy_row_mapped_layout_is_read_without_magic() {
    let mut bytes = Vec::new();
    write_u64(&mut bytes, 3);
    bytes.extend_from_slice(&[9, 8, 7]);
    write_u64(&mut bytes, 1);
    write_u64(&mut bytes, 5);
    write_u64_vec(&mut bytes, &[10, 11]);
    let (index, records) = decode_row_mapped_archive_parts(&bytes).unwrap();
    assert_eq!(index, vec![9, 8, 7]);
    assert_eq!(records, vec![record(5, &[10, 11])]);
}

#[test]
fn row_mapped_parts_reject_trailing_bytes() {
    let mut bytes = encode_row_mapped_archive_parts(&[1, 2], &[record(0, &[4])]);
    bytes.push(0);
    assert_eq!(
        decode_row_mapped_archive_parts(&bytes),
        Err(FSERowMappedArchiveCodecError::TrailingBytes { remaining: 1 })
    );
}

#[test]
fn row_mapped_parts_reject_unknown_list_mode() {
    let mut bytes = b"FSERMV02".to_vec();
    write_u64(&mut bytes, 0);
    write_u64(&mut bytes, 1);
    write_u64(&mut bytes, 0);
    bytes.push(3);
    assert_eq!(
        decode_row_mapped_archive_parts(&bytes),
        Err(FSERowMappedArchiveCodecError::InvalidCompactIntegerVectorMode {
            field: "row_mapped.leaf_row_id_record.row_ids",
            mode: 3,
        })
    );
}

#[test]
fn row_mapped_parts_reject_negative_running_sum() {
    let mut bytes = b"FSERMV02".to_vec();
    write_u64(&mut bytes, 0);
    write_u64(&mut bytes, 1);
    write_u64(&mut bytes, 0);
    bytes.push(2);
    write_u64(&mut bytes, 1);
    bytes.push(1);
    assert_eq!(
        decode_row_mapped_archive_parts(&bytes),
        Err(FSERowMappedArchiveCodecError::LengthOutOfRange {
            field: "row_mapped.leaf_row_id_record.row_ids",
            length: u64::MAX,
        })
    );
}

#[test]
fn row_mapped_parts_report_truncated_index() {
    let mut bytes = b"FSERMV02".to_vec();
    write_u64(&mut bytes, 10);
    bytes.extend_from_slice(&[1, 2]);
    assert_eq!(
        decode_row_mapped_archive_parts(&bytes),
        Err(FSERowMappedArchiveCodecError::UnexpectedEndOfArchive {
            field: "row_mapped.index_snapshot",
            needed: 10,
            remaining: 2,
        })
    );
}

#[test]
fn legacy_fixed_width_list_checks_remaining_bytes() {
    let mut bytes = Vec::new();
    write_u64(&mut bytes, 0);
    write_u64(&mut bytes, 1);
    write_u64(&mut bytes, 5);
    write_u64(&mut bytes, 3);
    write_u64(&mut bytes, 1);
    assert_eq!(
        decode_row_mapped_archive_parts(&bytes),
        Err(FSERowMappedArchiveCodecError::UnexpectedEndOfArchive {
            field: "row_mapped.leaf_row_id_record.row_ids",
            needed: 24,
            remaining: 8,
        })
    );
}

#[test]
fn row_mapped_parts_report_input_shorter_than_a_length() {
    assert_eq!(
        decode_row_mapped_archive_parts(&[7, 7, 7]),
        Err(FSERowMappedArchiveCodecError::UnexpectedEndOfArchive {
            field: "row_mapped.index_snapshot",
            needed: 8,
            remaining: 3,
        })
    );
}
