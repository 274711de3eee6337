use fse_rust::persistence::tombstone_file::typed_row_tombstone_append_file_bytes;
use fse_rust::bytes::{write_u64, write_u64_vec};
use fse_rust::data::RowId;
use fse_rust::persistence::payload::{
    decode_archive_payload, encode_archive_payload, FSEArchivePayloadHeaderError,
    FSEArchivePayloadKind, FSE_ARCHIVE_PAYLOAD_MAGIC,
};
use fse_rust::persistence::tombstone::{
    FSETypedRowTombstoneArchiveSnapshot, FSETypedRowTombstoneArchiveSnapshotError,
};
use fse_rust::persistence::tombstone_codec::{
    decode_typed_row_tombstone_archive_snapshot, encode_typed_row_tombstone_archive_snapshot,
    FSETypedRowTombstoneArchiveCodecError,
};
use fse_rust::persistence::tombstone_file::{
    decode_typed_row_tombstone_archive_file, merge_tombstones, typed_row_tombstone_append_result,
    typed_row_tombstone_archive_file_bytes, typed_row_tombstone_row_ids_from_archive_file_bytes,
    validate_append_row_ids, FSETypedRowTombstoneArchiveError, FSETypedRowTombstoneArchiveFileError,
};

fn ids(values: &[u64]) -> Vec<RowId> {
    values.iter().map(|value| RowId::new(*value)).collect()
}

#[test]
fn payload_header_layout() {
    let bytes = encode_archive_payload(FSEArchivePayloadKind::TypedRowTombstone, &[7, 8]);
    assert_eq!(&bytes[..8], b"FSEPLD01");
    assert_eq!(&bytes[..8], &FSE_ARCHIVE_PAYLOAD_MAGIC);
    assert_eq!(&bytes[8..12], &[1, 0, 0, 0]);
    assert_eq!(bytes[12], 5);
    assert_eq!(&bytes[13..], &[7, 8]);
}

#[test]
fn payload_round_trips_for_every_kind() {
    for kind in [
        FSEArchivePayloadKind::Index,
        FSEArchivePayloadKind::RowMappedIndex,
        FSEArchivePayloadKind::TypedRecordBatch,
        FSEArchivePayloadKind::TypedQueryIndex,
        FSEArchivePayloadKind::TypedRowTombstone,
    ] {
        let payload = vec![1u8, 2, 3, 250];
        let bytes = encode_archive_payload(kind, &payload);
        assert_eq!(decode_archive_payload(kind, &bytes), Ok(payload));
    }
}

#[test]
fn payload_of_another_kind_is_refused() {
    let bytes = encode_archive_payload(FSEArchivePayloadKind::Index, &[]);
    assert_eq!(
        decode_archive_payload(FSEArchivePayloadKind::TypedQueryIndex, &bytes),
        Err(FSEArchivePayloadHeaderError::UnexpectedPayloadKind {
            expected: FSEArchivePayloadKind::TypedQueryIndex,
            actual: FSEArchivePayloadKind::Index,
        })
    );
}

#[test]
fn payload_header_errors() {
    assert_eq!(
        decode_archive_payload(FSEArchivePayloadKind::Index, b"FSE"),
        Err(FSEArchivePayloadHeaderError::UnexpectedEndOfArchive {
            field: "payload.magic",
            needed: 8,
            remaining: 3,
        })
    );
    assert_eq!(
        decode_archive_payload(FSEArchivePayloadKind::Index, b"NOTMAGIC\x01\x00\x00\x00\x01"),
        Err(FSEArchivePayloadHeaderError::InvalidPayloadMagic { actual: *b"NOTMAGIC" })
    );
    assert_eq!(
        decode_archive_payload(FSEArchivePayloadKind::Index, b"FSEPLD01\x01\x00"),
        Err(FSEArchivePayloadHeaderError::UnexpectedEndOfArchive {
            field: "payload.header_version",
            needed: 4,
            remaining: 2,
        })
    );
    assert_eq!(
        decode_archive_payload(FSEArchivePayloadKind::Index, b"FSEPLD01\x02\x00\x00\x00\x01"),
        Err(FSEArchivePayloadHeaderError::UnsupportedPayloadHeaderVersion { actual: 2, expected: 1 })
    );
    assert_eq!(
        decode_archive_payload(FSEArchivePayloadKind::Index, b"FSEPLD01\x01\x00\x00\x00"),
        Err(FSEArchivePayloadHeaderError::UnexpectedEndOfArchive {
            field: "payload.kind",
            needed: 1,
            remaining: 0,
        })
    );
    assert_eq!(
        decode_archive_payload(FSEArchivePayloadKind::Index, b"FSEPLD01\x01\x00\x00\x00\x09"),
        Err(FSEArchivePayloadHeaderError::UnknownPayloadKind { value: 9 })
    );
}

#[test]
fn tombstone_snapshot_refuses_repeats() {
    assert_eq!(
        FSETypedRowTombstoneArchiveSnapshot::from_row_ids(&ids(&[9, 4, 9, 4])),
        Err(FSETypedRowTombstoneArchiveSnapshotError::DuplicateRowId { row_id: 4 })
    );
    let snapshot = FSETypedRowTombstoneArchiveSnapshot::from_row_ids(&ids(&[3, 1, 2])).unwrap();
    assert_eq!(snapshot.deleted_row_ids, vec![3, 1, 2]);
    assert_eq!(snapshot.len(), 3);
    assert!(!snapshot.is_empty());
    assert!(snapshot.contains(RowId::new(2)));
    assert!(!snapshot.contains(RowId::new(5)));
    assert_eq!(snapshot.to_row_ids(), Ok(ids(&[3, 1, 2])));
}

#[test]
fn tombstone_codec_round_trip_and_layout() {
    let snapshot = FSETypedRowTombstoneArchiveSnapshot { deleted_row_ids: vec![5, 1, 9] };
    let bytes = encode_typed_row_tombstone_archive_snapshot(&snapshot).unwrap();
    let mut expected = Vec::new();
    write_u64_vec(&mut expected, &[5, 1, 9]);
    assert_eq!(bytes, expected);
    assert_eq!(decode_typed_row_tombstone_archive_snapshot(&bytes), Ok(snapshot.clone()));
    assert_eq!(snapshot.to_archive_bytes(), Ok(expected.clone()));
    assert_eq!(FSETypedRowTombstoneArchiveSnapshot::from_archive_bytes(&expected), Ok(snapshot));
}

#[test]
fn tombstone_codec_errors() {
    let duplicated = FSETypedRowTombstoneArchiveSnapshot { deleted_row_ids: vec![2, 2] };
    assert_eq!(
        encode_typed_row_tombstone_archive_snapshot(&duplicated),
        Err(FSETypedRowTombstoneArchiveCodecError::Snapshot(
            FSETypedRowTombstoneArchiveSnapshotError::DuplicateRowId { row_id: 2 }
        ))
    );
    assert_eq!(
        decode_typed_row_tombstone_archive_snapshot(&[1, 0]),
        Err(FSETypedRowTombstoneArchiveCodecError::UnexpectedEndOfArchive {
            field: "typed_tombstone.deleted_row_ids",
            needed: 8,
            remaining: 2,
        })
    );
    let mut short = Vec::new();
    write_u64(&mut short, 2);
    write_u64(&mut short, 1);
    assert_eq!(
        decode_typed_row_tombstone_archive_snapshot(&short),
        Err(FSETypedRowTombstoneArchiveCodecError::UnexpectedEndOfArchive {
            field: "typed_tombstone.deleted_row_ids",
            needed: 16,
            remaining: 8,
        })
    );
    let mut long = Vec::new();
    write_u64_vec(&mut long, &[1]);
    long.push(0);
    assert_eq!(
        decode_typed_row_tombstone_archive_snapshot(&long),
        Err(FSETypedRowTombstoneArchiveCodecError::TrailingBytes { remaining: 1 })
    );
    let mut huge = Vec::new();
    write_u64(&mut huge, u64::MAX);
    assert_eq!(
        decode_typed_row_tombstone_archive_snapshot(&huge),
        Err(FSETypedRowTombstoneArchiveCodecError::LengthOutOfRange {
            field: "typed_tombstone.deleted_row_ids",
            length: u64::MAX,
        })
    );
    let mut repeated = Vec::new();
    write_u64_vec(&mut repeated, &[4, 4]);
    assert_eq!(
        decode_typed_row_tombstone_archive_snapshot(&repeated),
        Err(FSETypedRowTombstoneArchiveCodecError::Snapshot(
            FSETypedRowTombstoneArchiveSnapshotError::DuplicateRowId { row_id: 4 }
        ))
    );
}

#[test]
fn tombstone_file_bytes_round_trip() {
    let bytes = typed_row_tombstone_archive_file_bytes(&ids(&[8, 2, 5])).unwrap();
    assert_eq!(&bytes[..8], b"FSEPLD01");
    assert_eq!(bytes[12], 5);
    assert_eq!(typed_row_tombstone_row_ids_from_archive_file_bytes(&bytes), Ok(ids(&[8, 2, 5])));
    let snapshot = decode_typed_row_tombstone_archive_file(&bytes).unwrap();
    assert_eq!(snapshot.deleted_row_ids, vec![8, 2, 5]);
}

#[test]
fn tombstone_file_bytes_errors() {
    assert_eq!(
        typed_row_tombstone_archive_file_bytes(&ids(&[1, 1])),
        Err(FSETypedRowTombstoneArchiveError::Snapshot(
            FSETypedRowTombstoneArchiveSnapshotError::DuplicateRowId { row_id: 1 }
        ))
    );
    let index_payload = encode_archive_payload(FSEArchivePayloadKind::Index, &[]);
    assert_eq!(
        decode_typed_row_tombstone_archive_file(&index_payload),
        Err(FSETypedRowTombstoneArchiveFileError::Payload(
            FSEArchivePayloadHeaderError::UnexpectedPayloadKind {
                expected: FSEArchivePayloadKind::TypedRowTombstone,
                actual: FSEArchivePayloadKind::Index,
            }
        ))
    );
}

#[test]
fn append_requests_must_be_non_empty_and_unique() {
    assert_eq!(validate_append_row_ids(&[]), Err(FSETypedRowTombstoneArchiveError::EmptyAppend));
    assert_eq!(
        validate_append_row_ids(&ids(&[7, 3, 7, 3])),
        Err(FSETypedRowTombstoneArchiveError::DuplicateAppendedRowId { row_id: RowId::new(3) })
    );
    assert_eq!(validate_append_row_ids(&ids(&[7, 3])), Ok(()));
}

#[test]
fn merging_tombstones_sorts_and_removes_repeats() {
    assert_eq!(merge_tombstones(ids(&[9, 2]), &ids(&[5, 2, 1])), ids(&[1, 2, 5, 9]));
    assert_eq!(merge_tombstones(Vec::new(), &[]), Vec::<RowId>::new());
}

#[test]
fn append_result_counts() {
    let result = typed_row_tombstone_append_result(ids(&[9, 2]), &ids(&[5, 2, 1]));
    assert_eq!(result.base_tombstone_count, 2);
    assert_eq!(result.requested_tombstone_count, 3);
    assert_eq!(result.appended_tombstone_count, 2);
    assert_eq!(result.resulting_tombstone_count, 4);
    assert_eq!(result.row_ids, ids(&[1, 2, 5, 9]));
}

#[test]
fn appending_to_stored_tombstone_bytes_stores_the_union() {
    let stored = typed_row_tombstone_archive_file_bytes(&ids(&[9, 2, 5])).unwrap();
    let (result, bytes) = typed_row_tombstone_append_file_bytes(&stored, &ids(&[5, 1])).unwrap();
    assert_eq!(result.base_tombstone_count, 3);
    assert_eq!(result.requested_tombstone_count, 2);
    assert_eq!(result.appended_tombstone_count, 1);
    assert_eq!(result.resulting_tombstone_count, 4);
    assert_eq!(result.row_ids, ids(&[1, 2, 5, 9]));
    assert_eq!(typed_row_tombstone_row_ids_from_archive_file_bytes(&bytes), Ok(ids(&[1, 2, 5, 9])));
}

#[test]
fn appending_to_stored_tombstone_bytes_checks_the_request_first() {
    assert_eq!(
        typed_row_tombstone_append_file_bytes(b"not an archive", &[]),
        Err(FSETypedRowTombstoneArchiveError::EmptyAppend)
    );
    assert!(matches!(
        typed_row_tombstone_append_file_bytes(b"not an archive", &ids(&[4])),
        Err(FSETypedRowTombstoneArchiveError::File(_))
    ));
}
