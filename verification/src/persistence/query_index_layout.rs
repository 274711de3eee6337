//! Byte layout of a typed query index archive around its three sections: the
//! row-mapped index, the compact typed record batch and the record encoder
//! metadata, each stored with its length.
use vstd::bytes::*;
use vstd::prelude::*;

use crate::bytes::{write_bytes, write_u64};
use crate::cursor::{le_u64, ByteCursor};
use crate::encoding::metadata::{FSEFieldEncoderMetadata, FSERecordEncoderMetadata};

use super::batch_section::{
    batch_section_bytes, batch_section_read, decode_typed_query_index_record_batch_section,
    encode_typed_query_index_record_batch_section, lemma_batch_section_matching_encoders,
    records_have_field_count, section_magic, snapshot_counts_fit, starts_with_section,
};
use super::query_index_codec::{
    decode_record_encoder_metadata, encode_record_encoder_metadata, field_encoders_match,
    lemma_record_encoder_metadata_bytes_injective, lift, record_encoder_metadata_bytes,
    FSETypedQueryIndexArchiveCodecError,
};
use super::record_batch::FSERecordBatchArchiveSnapshot;

verus! {

/// Bytes of a typed query index archive: the row-mapped index bytes, the record
/// batch section and the record encoder metadata, each prefixed by its length as
/// a little-endian `u64`.
pub open spec fn typed_query_index_archive_bytes(index: Seq<u8>, batch: Seq<u8>, encoder: Seq<u8>) -> Seq<u8> {
    spec_u64_to_le_bytes(index.len() as u64) + index + spec_u64_to_le_bytes(batch.len() as u64) + batch
        + spec_u64_to_le_bytes(encoder.len() as u64) + encoder
}

/// The bytes of a typed query index archive that holds the given index bytes,
/// batch and field encoders, when the batch fits the encoders.
pub open spec fn typed_query_index_archive_of(
    index: Seq<u8>,
    batch: FSERecordBatchArchiveSnapshot,
    fields: Seq<FSEFieldEncoderMetadata>,
) -> Option<Seq<u8>> {
    match batch_section_bytes(batch, fields) {
        Ok(section) => Some(
            typed_query_index_archive_bytes(index, section, record_encoder_metadata_bytes(fields)),
        ),
        Err(_) => None,
    }
}

/// The parts of a typed query index archive: the bytes of its row-mapped index,
/// its record batch and its record encoder metadata.
pub type TypedQueryIndexArchiveParts = (Vec<u8>, FSERecordBatchArchiveSnapshot, FSERecordEncoderMetadata);

/// Encodes a typed query index archive from the bytes of its row-mapped index,
/// its record batch and its record encoder metadata. The batch is encoded in the
/// columnar layout; the encoding fails when the batch does not fit the encoders.
pub fn encode_typed_query_index_archive_parts(
    index_bytes: &[u8],
    batch: &FSERecordBatchArchiveSnapshot,
    record_encoder: &FSERecordEncoderMetadata,
) -> (result: Result<Vec<u8>, FSETypedQueryIndexArchiveCodecError>)
    ensures
        match batch_section_bytes(*batch, record_encoder@) {
            Ok(section) => result matches Ok(bytes) && bytes@ == typed_query_index_archive_bytes(
                index_bytes@,
                section,
                record_encoder_metadata_bytes(record_encoder@),
            ),
            Err(error) => result == Err::<Vec<u8>, FSETypedQueryIndexArchiveCodecError>(error),
        },
{
    let batch_bytes = match encode_typed_query_index_record_batch_section(batch, record_encoder) {
        Ok(bytes) => bytes,
        Err(error) => return Err(error),
    };
    let encoder_bytes = encode_record_encoder_metadata(record_encoder);
    let mut bytes: Vec<u8> = Vec::new();
    write_u64(&mut bytes, index_bytes.len() as u64);
    write_bytes(&mut bytes, index_bytes);
    write_u64(&mut bytes, batch_bytes.len() as u64);
    write_bytes(&mut bytes, batch_bytes.as_slice());
    write_u64(&mut bytes, encoder_bytes.len() as u64);
    write_bytes(&mut bytes, encoder_bytes.as_slice());
    Ok(bytes)
}

/// The three length-prefixed sections of `bytes`, when the bytes are exactly
/// three such sections.
pub open spec fn archive_sections(bytes: Seq<u8>) -> Option<(Seq<u8>, Seq<u8>, Seq<u8>)> {
    let first_len = le_u64(bytes) as int;
    let after_first = bytes.subrange(8 + first_len, bytes.len() as int);
    let second_len = le_u64(after_first) as int;
    let after_second = after_first.subrange(8 + second_len, after_first.len() as int);
    let third_len = le_u64(after_second) as int;
    if bytes.len() >= 8 && 8 + first_len <= bytes.len() && after_first.len() >= 8 && 8 + second_len
        <= after_first.len() && after_second.len() >= 8 && 8 + third_len == after_second.len() {
        Some(
            (
                bytes.subrange(8, 8 + first_len),
                after_first.subrange(8, 8 + second_len),
                after_second.subrange(8, 8 + third_len),
            ),
        )
    } else {
        None
    }
}

/// The sections of framed bytes are the framed sections.
proof fn lemma_archive_sections_of_frame(index: Seq<u8>, batch: Seq<u8>, encoder: Seq<u8>)
    requires
        index.len() <= u64::MAX,
        batch.len() <= u64::MAX,
        encoder.len() <= u64::MAX,
    ensures
        archive_sections(typed_query_index_archive_bytes(index, batch, encoder)) == Some(
            (index, batch, encoder),
        ),
{
    lemma_auto_spec_u64_to_from_le_bytes();
    let bytes = typed_query_index_archive_bytes(index, batch, encoder);
    assert(bytes.subrange(0, 8) =~= spec_u64_to_le_bytes(index.len() as u64));
    let after_first = bytes.subrange(8 + index.len() as int, bytes.len() as int);
    assert(after_first =~= spec_u64_to_le_bytes(batch.len() as u64) + batch + spec_u64_to_le_bytes(
        encoder.len() as u64,
    ) + encoder);
    assert(after_first.subrange(0, 8) =~= spec_u64_to_le_bytes(batch.len() as u64));
    let after_second = after_first.subrange(8 + batch.len() as int, after_first.len() as int);
    assert(after_second =~= spec_u64_to_le_bytes(encoder.len() as u64) + encoder);
    assert(after_second.subrange(0, 8) =~= spec_u64_to_le_bytes(encoder.len() as u64));
    assert(bytes.subrange(8, 8 + index.len() as int) =~= index);
    assert(after_first.subrange(8, 8 + batch.len() as int) =~= batch);
    assert(after_second.subrange(8, 8 + encoder.len() as int) =~= encoder);
}

/// Decodes a typed query index archive into the bytes of its row-mapped index,
/// its record batch and its record encoder metadata; the batch is decoded with
/// the decoded encoders. Decoding what encoding produced, for a batch whose
/// records hold one value per field, gives back the index bytes, encoders that
/// match, and a batch that encodes like the encoded one. The row-mapped index is
/// not decoded here.
#[verifier::rlimit(60)]
pub fn decode_typed_query_index_archive_parts(bytes: &[u8]) -> (result: Result<
    TypedQueryIndexArchiveParts,
    FSETypedQueryIndexArchiveCodecError,
>)
    ensures
        forall|index: Seq<u8>, batch: FSERecordBatchArchiveSnapshot, fields: Seq<FSEFieldEncoderMetadata>|
            records_have_field_count(batch) && snapshot_counts_fit(batch)
                && #[trigger] typed_query_index_archive_of(index, batch, fields) == Some(bytes@)
                ==> (result matches Ok((index_bytes, decoded, record_encoder)) && index_bytes@ == index
                && field_encoders_match(record_encoder@, fields) && batch_section_bytes(
                decoded,
                record_encoder@,
            ) == batch_section_bytes(batch, fields)),
        result is Ok ==> archive_sections(bytes@) is Some,
        result matches Ok((index_bytes, batch, record_encoder)) ==> archive_sections(bytes@) matches Some(
            (index, section, encoder),
        ) && index_bytes@ == index && encoder == record_encoder_metadata_bytes(record_encoder@)
            && batch_section_read(section, record_encoder@, batch),
{
    let ghost has_target = exists|
        index: Seq<u8>,
        batch: FSERecordBatchArchiveSnapshot,
        fields: Seq<FSEFieldEncoderMetadata>,
    |
        records_have_field_count(batch) && snapshot_counts_fit(batch)
            && #[trigger] typed_query_index_archive_of(index, batch, fields) == Some(bytes@);
    let ghost (t_index, t_batch, t_fields) = if has_target {
        choose|
            index: Seq<u8>,
            batch: FSERecordBatchArchiveSnapshot,
            fields: Seq<FSEFieldEncoderMetadata>,
        |
            records_have_field_count(batch) && snapshot_counts_fit(batch)
                && #[trigger] typed_query_index_archive_of(index, batch, fields) == Some(bytes@)
    } else {
        arbitrary()
    };
    let ghost t_section = batch_section_bytes(t_batch, t_fields)->Ok_0;
    let ghost t_encoder = record_encoder_metadata_bytes(t_fields);
    let mut cursor = ByteCursor::new(bytes);
    proof {
        if has_target {
            assert(bytes@ == typed_query_index_archive_bytes(t_index, t_section, t_encoder));
            lemma_archive_sections_of_frame(t_index, t_section, t_encoder);
        }
    }
    let index_bytes = match cursor.read_byte_vec() {
        Ok(field) => field,
        Err(error) => return Err(lift(error, "typed_index.row_mapped_index")),
    };
    let batch_bytes = match cursor.read_byte_vec() {
        Ok(field) => field,
        Err(error) => return Err(lift(error, "typed_index.record_batch")),
    };
    let encoder_bytes = match cursor.read_byte_vec() {
        Ok(field) => field,
        Err(error) => return Err(lift(error, "typed_index.record_encoder")),
    };
    if cursor.remaining() != 0 {
        return Err(FSETypedQueryIndexArchiveCodecError::TrailingBytes { remaining: cursor.remaining() });
    }
    proof {
        assert(archive_sections(bytes@) == Some((index_bytes@, batch_bytes@, encoder_bytes@)));
    }
    let record_encoder = match decode_record_encoder_metadata(encoder_bytes.as_slice()) {
        Ok(metadata) => metadata,
        Err(error) => return Err(error),
    };
    proof {
        if has_target {
            lemma_record_encoder_metadata_bytes_injective(record_encoder@, t_fields);
            lemma_batch_section_matching_encoders(t_batch, record_encoder@, t_fields);
            assert(t_section.subrange(0, 8) == section_magic(5));
            assert(starts_with_section(batch_bytes@, 5));
        }
    }
    let batch = match decode_typed_query_index_record_batch_section(batch_bytes.as_slice(), &record_encoder) {
        Ok(batch) => batch,
        Err(error) => return Err(error),
    };
    proof {
        assert forall|
            index: Seq<u8>,
            other: FSERecordBatchArchiveSnapshot,
            fields: Seq<FSEFieldEncoderMetadata>,
        |
            records_have_field_count(other) && snapshot_counts_fit(other)
                && #[trigger] typed_query_index_archive_of(index, other, fields) == Some(
                bytes@,
            ) implies index_bytes@ == index && field_encoders_match(record_encoder@, fields)
            && batch_section_bytes(batch, record_encoder@) == batch_section_bytes(other, fields) by {
            let section = batch_section_bytes(other, fields)->Ok_0;
            lemma_archive_sections_of_frame(index, section, record_encoder_metadata_bytes(fields));
            lemma_record_encoder_metadata_bytes_injective(record_encoder@, fields);
            lemma_batch_section_matching_encoders(other, record_encoder@, fields);
        }
    }
    Ok((index_bytes, batch, record_encoder))
}

} // verus!
