//! Error vocabulary of the typed record batch archive byte codec.
use vstd::bytes::*;
use vstd::prelude::*;
use vstd::utf8::{decode_utf8, encode_utf8, valid_utf8};

use crate::bytes::{
    bool_byte, lemma_u64s_le_bytes, u64_vec_bytes, u64s_le_bytes, write_bool, write_u64,
    write_u64_vec, write_u8,
};
use crate::cursor::{le_u64, string_field_bytes, ByteCursor, CursorError};

use super::batch_section::{
    compact_batch_fields_bytes, lemma_compact_fields_unique_from, lemma_concat_split,
    lemma_snapshot_matches_trans, lemma_string_field_prefix_unique, lemma_u64s_le_unique,
    snapshot_counts_fit,
    clone_value, compact_field_type_tag, field_matches, snapshot_matches, value_matches,
    write_compact_batch_field_type_tag,
};
use super::query_index_codec::{lemma_starts_with_split, starts_with, write_string};
use super::record_batch::{
    FSEFieldArchiveRecord, FSEFieldTypeArchiveTag, FSERecordArchiveRecord,
    FSERecordBatchArchiveSnapshot, FSEValueArchiveRecord,
};

verus! {

broadcast use vstd::utf8::encode_utf8_valid_utf8, vstd::utf8::encode_utf8_decode_utf8, vstd::utf8::decode_utf8_encode_utf8;

/// Error returned when typed record batch archive byte encoding or decoding fails.
#[derive(Clone, Debug, PartialEq, Eq)]
pub enum FSETypedRecordBatchArchiveCodecError {
    /// The byte slice ended before a complete typed record batch field could be read.
    UnexpectedEndOfArchive {
        /// Archive field being read.
        field: &'static str,
        /// Number of bytes required for the field.
        needed: usize,
        /// Number of bytes remaining in the input.
        remaining: usize,
    },
    /// A string field was not valid UTF-8.
    InvalidUtf8 {
        /// Archive field being read.
        field: &'static str,
        /// Raw bytes found for the field.
        bytes: Vec<u8>,
    },
    /// A boolean field contained a value other than `0` or `1`.
    InvalidBoolean {
        /// Archive field being read.
        field: &'static str,
        /// Raw boolean value found in the input.
        value: u8,
    },
    /// A field type tag did not match a supported field type.
    InvalidFieldTypeTag {
        /// Archive field being read.
        field: &'static str,
        /// Raw tag value found in the input.
        value: u8,
    },
    /// A value tag did not match a supported typed value variant.
    InvalidValueTag {
        /// Archive field being read.
        field: &'static str,
        /// Raw tag value found in the input.
        value: u8,
    },
    /// The archive contained bytes after the decoded typed record batch snapshot.
    TrailingBytes {
        /// Number of unread bytes.
        remaining: usize,
    },
    /// A length field cannot be represented by this runtime.
    LengthOutOfRange {
        /// Archive field being read.
        field: &'static str,
        /// Length found in the input.
        length: u64,
    },
}

/// Diagnostic text of a typed record batch codec error.
pub open spec fn record_batch_codec_error_message(error: FSETypedRecordBatchArchiveCodecError) -> &'static str {
    match error {
        FSETypedRecordBatchArchiveCodecError::UnexpectedEndOfArchive { .. } => {
            "typed record batch archive ended before the field could be read"
        },
        FSETypedRecordBatchArchiveCodecError::InvalidUtf8 { .. } => {
            "typed record batch archive string field is not valid UTF-8"
        },
        FSETypedRecordBatchArchiveCodecError::InvalidBoolean { .. } => {
            "typed record batch archive boolean field must be 0 or 1"
        },
        FSETypedRecordBatchArchiveCodecError::InvalidFieldTypeTag { .. } => {
            "typed record batch archive field type tag is invalid"
        },
        FSETypedRecordBatchArchiveCodecError::InvalidValueTag { .. } => {
            "typed record batch archive value tag is invalid"
        },
        FSETypedRecordBatchArchiveCodecError::TrailingBytes { .. } => {
            "typed record batch archive contains trailing bytes"
        },
        FSETypedRecordBatchArchiveCodecError::LengthOutOfRange { .. } => {
            "typed record batch archive length field is outside the runtime range"
        },
    }
}

impl FSETypedRecordBatchArchiveCodecError {
    /// Returns the diagnostic message for the error.
    pub fn message(&self) -> (message: &'static str)
        ensures
            message == record_batch_codec_error_message(*self),
    {
        match self {
            FSETypedRecordBatchArchiveCodecError::UnexpectedEndOfArchive { .. } => {
                "typed record batch archive ended before the field could be read"
            },
            FSETypedRecordBatchArchiveCodecError::InvalidUtf8 { .. } => {
                "typed record batch archive string field is not valid UTF-8"
            },
            FSETypedRecordBatchArchiveCodecError::InvalidBoolean { .. } => {
                "typed record batch archive boolean field must be 0 or 1"
            },
            FSETypedRecordBatchArchiveCodecError::InvalidFieldTypeTag { .. } => {
                "typed record batch archive field type tag is invalid"
            },
            FSETypedRecordBatchArchiveCodecError::InvalidValueTag { .. } => {
                "typed record batch archive value tag is invalid"
            },
            FSETypedRecordBatchArchiveCodecError::TrailingBytes { .. } => {
                "typed record batch archive contains trailing bytes"
            },
            FSETypedRecordBatchArchiveCodecError::LengthOutOfRange { .. } => {
                "typed record batch archive length field is outside the runtime range"
            },
        }
    }
}


/// The codec error for a failed primitive read of `field`.
pub open spec fn batch_read_error(error: CursorError, field: &'static str) -> FSETypedRecordBatchArchiveCodecError {
    match error {
        CursorError::UnexpectedEnd { needed, remaining } => {
            FSETypedRecordBatchArchiveCodecError::UnexpectedEndOfArchive { field, needed, remaining }
        },
        CursorError::LengthOutOfRange { length } => {
            FSETypedRecordBatchArchiveCodecError::LengthOutOfRange { field, length }
        },
        CursorError::InvalidUtf8 { bytes } => FSETypedRecordBatchArchiveCodecError::InvalidUtf8 {
            field,
            bytes,
        },
    }
}

fn lift(error: CursorError, field: &'static str) -> (lifted: FSETypedRecordBatchArchiveCodecError)
    ensures
        lifted == batch_read_error(error, field),
{
    match error {
        CursorError::UnexpectedEnd { needed, remaining } => {
            FSETypedRecordBatchArchiveCodecError::UnexpectedEndOfArchive { field, needed, remaining }
        },
        CursorError::LengthOutOfRange { length } => {
            FSETypedRecordBatchArchiveCodecError::LengthOutOfRange { field, length }
        },
        CursorError::InvalidUtf8 { bytes } => FSETypedRecordBatchArchiveCodecError::InvalidUtf8 {
            field,
            bytes,
        },
    }
}

/// Bytes of one schema field: name, type tag and nullable flag.
pub open spec fn typed_field_bytes(field: FSEFieldArchiveRecord) -> Seq<u8> {
    string_field_bytes(field.name@) + seq![compact_field_type_tag(field.field_type), bool_byte(field.nullable)]
}

/// Concatenated bytes of each schema field.
pub open spec fn typed_fields_bytes(fields: Seq<FSEFieldArchiveRecord>) -> Seq<u8>
    decreases fields.len(),
{
    if fields.len() == 0 {
        Seq::empty()
    } else {
        typed_fields_bytes(fields.drop_last()) + typed_field_bytes(fields.last())
    }
}

/// Bytes of one tagged value.
pub open spec fn typed_value_bytes(value: FSEValueArchiveRecord) -> Seq<u8> {
    match value {
        FSEValueArchiveRecord::Null => seq![0u8],
        FSEValueArchiveRecord::Integer(v) => seq![1u8] + spec_u64_to_le_bytes(v as u64),
        FSEValueArchiveRecord::Float(bits) => seq![2u8] + spec_u64_to_le_bytes(bits),
        FSEValueArchiveRecord::Text(text) => seq![3u8] + string_field_bytes(text@),
        FSEValueArchiveRecord::Boolean(flag) => seq![4u8, bool_byte(flag)],
        FSEValueArchiveRecord::TimestampMillis(v) => seq![5u8] + spec_u64_to_le_bytes(v as u64),
        FSEValueArchiveRecord::Category(label) => seq![6u8] + string_field_bytes(label@),
    }
}

/// Concatenated bytes of each value.
pub open spec fn typed_values_bytes(values: Seq<FSEValueArchiveRecord>) -> Seq<u8>
    decreases values.len(),
{
    if values.len() == 0 {
        Seq::empty()
    } else {
        typed_values_bytes(values.drop_last()) + typed_value_bytes(values.last())
    }
}

/// Bytes of one record: its value count, then each value.
pub open spec fn typed_record_bytes(record: FSERecordArchiveRecord) -> Seq<u8> {
    spec_u64_to_le_bytes(record.values@.len() as u64) + typed_values_bytes(record.values@)
}

/// Concatenated bytes of each record.
pub open spec fn typed_records_bytes(records: Seq<FSERecordArchiveRecord>) -> Seq<u8>
    decreases records.len(),
{
    if records.len() == 0 {
        Seq::empty()
    } else {
        typed_records_bytes(records.drop_last()) + typed_record_bytes(records.last())
    }
}

/// Bytes of a typed record batch archive: the field count and fields, the row
/// ids as a length-prefixed `u64` list, then the record count and records.
pub open spec fn typed_batch_bytes(snapshot: FSERecordBatchArchiveSnapshot) -> Seq<u8> {
    spec_u64_to_le_bytes(snapshot.schema_fields@.len() as u64) + typed_fields_bytes(
        snapshot.schema_fields@,
    ) + u64_vec_bytes(snapshot.row_ids@) + spec_u64_to_le_bytes(snapshot.records@.len() as u64)
        + typed_records_bytes(snapshot.records@)
}

fn write_typed_value(out: &mut Vec<u8>, value: &FSEValueArchiveRecord)
    ensures
        final(out)@ == old(out)@ + typed_value_bytes(*value),
{
    match value {
        FSEValueArchiveRecord::Null => {
            write_u8(out, 0);
        },
        FSEValueArchiveRecord::Integer(v) => {
            write_u8(out, 1);
            write_u64(out, *v as u64);
        },
        FSEValueArchiveRecord::Float(bits) => {
            write_u8(out, 2);
            write_u64(out, *bits);
        },
        FSEValueArchiveRecord::Text(text) => {
            write_u8(out, 3);
            write_string(out, text.as_str());
        },
        FSEValueArchiveRecord::Boolean(flag) => {
            write_u8(out, 4);
            write_bool(out, *flag);
        },
        FSEValueArchiveRecord::TimestampMillis(v) => {
            write_u8(out, 5);
            write_u64(out, *v as u64);
        },
        FSEValueArchiveRecord::Category(label) => {
            write_u8(out, 6);
            write_string(out, label.as_str());
        },
    }
    assert(out@ =~= old(out)@ + typed_value_bytes(*value));
}

fn write_typed_record(out: &mut Vec<u8>, record: &FSERecordArchiveRecord)
    ensures
        final(out)@ == old(out)@ + typed_record_bytes(*record),
{
    write_u64(out, record.values.len() as u64);
    let ghost start = out@;
    let mut index: usize = 0;
    while index < record.values.len()
        invariant
            index <= record.values@.len(),
            out@ == start + typed_values_bytes(record.values@.subrange(0, index as int)),
        decreases record.values@.len() - index,
    {
        write_typed_value(out, &record.values[index]);
        proof {
            let next = record.values@.subrange(0, index + 1);
            assert(next.drop_last() =~= record.values@.subrange(0, index as int));
        }
        index = index + 1;
    }
    assert(record.values@.subrange(0, record.values@.len() as int) =~= record.values@);
    assert(out@ =~= old(out)@ + typed_record_bytes(*record));
}

fn write_typed_field(out: &mut Vec<u8>, field: &FSEFieldArchiveRecord)
    ensures
        final(out)@ == old(out)@ + typed_field_bytes(*field),
{
    write_string(out, field.name.as_str());
    write_compact_batch_field_type_tag(out, field.field_type);
    write_bool(out, field.nullable);
    assert(out@ =~= old(out)@ + typed_field_bytes(*field));
}

/// Encodes a typed record batch archive snapshot into little-endian bytes. The
/// batch is not checked against the typed schema rules here.
pub fn encode_typed_record_batch_archive_snapshot(snapshot: &FSERecordBatchArchiveSnapshot) -> (bytes: Vec<u8>)
    ensures
        bytes@ == typed_batch_bytes(*snapshot),
{
    let mut bytes: Vec<u8> = Vec::new();
    write_u64(&mut bytes, snapshot.schema_fields.len() as u64);
    let ghost header = bytes@;
    let mut index: usize = 0;
    while index < snapshot.schema_fields.len()
        invariant
            index <= snapshot.schema_fields@.len(),
            bytes@ == header + typed_fields_bytes(snapshot.schema_fields@.subrange(0, index as int)),
        decreases snapshot.schema_fields@.len() - index,
    {
        write_typed_field(&mut bytes, &snapshot.schema_fields[index]);
        proof {
            let next = snapshot.schema_fields@.subrange(0, index + 1);
            assert(next.drop_last() =~= snapshot.schema_fields@.subrange(0, index as int));
        }
        index = index + 1;
    }
    assert(snapshot.schema_fields@.subrange(0, snapshot.schema_fields@.len() as int)
        =~= snapshot.schema_fields@);
    write_u64_vec(&mut bytes, snapshot.row_ids.as_slice());
    write_u64(&mut bytes, snapshot.records.len() as u64);
    let ghost middle = bytes@;
    let mut record_index: usize = 0;
    while record_index < snapshot.records.len()
        invariant
            record_index <= snapshot.records@.len(),
            bytes@ == middle + typed_records_bytes(snapshot.records@.subrange(0, record_index as int)),
        decreases snapshot.records@.len() - record_index,
    {
        write_typed_record(&mut bytes, &snapshot.records[record_index]);
        proof {
            let next = snapshot.records@.subrange(0, record_index + 1);
            assert(next.drop_last() =~= snapshot.records@.subrange(0, record_index as int));
        }
        record_index = record_index + 1;
    }
    assert(snapshot.records@.subrange(0, snapshot.records@.len() as int) =~= snapshot.records@);
    assert(bytes@ =~= typed_batch_bytes(*snapshot));
    bytes
}


fn read_batch_text(cursor: &mut ByteCursor, field: &'static str, Ghost(target): Ghost<Option<Seq<char>>>) -> (result: Result<
    String,
    FSETypedRecordBatchArchiveCodecError,
>)
    requires
        old(cursor).wf(),
        target matches Some(text) ==> starts_with(old(cursor).rest(), string_field_bytes(text)),
    ensures
        final(cursor).wf(),
        final(cursor).bytes@ == old(cursor).bytes@,
        result matches Ok(text) ==> old(cursor).rest() == string_field_bytes(text@)
            + final(cursor).rest(),
        target matches Some(text) ==> (result matches Ok(read) && read@ == text),
{
    proof {
        lemma_auto_spec_u64_to_from_le_bytes();
        if let Some(text) = target {
            let encoded = string_field_bytes(text);
            let rest = cursor.rest();
            let length = encode_utf8(text).len() as int;
            assert(rest.subrange(0, 8) =~= encoded.subrange(0, 8));
            assert(encoded.subrange(0, 8) =~= spec_u64_to_le_bytes(encode_utf8(text).len() as u64));
            assert(encoded.subrange(8, 8 + length) =~= encode_utf8(text));
            assert(rest.subrange(8, 8 + length) =~= rest.subrange(0, encoded.len() as int).subrange(
                8,
                8 + length,
            ));
        }
    }
    let text = match cursor.read_string() {
        Ok(text) => text,
        Err(error) => return Err(lift(error, field)),
    };
    proof {
        let rest = old(cursor).rest();
        let length = le_u64(rest);
        let bytes = rest.subrange(8, 8 + length);
        assert(encode_utf8(text@) == bytes);
        assert(spec_u64_to_le_bytes(length) == rest.subrange(0, 8));
        assert(rest =~= string_field_bytes(text@) + cursor.rest());
    }
    Ok(text)
}

fn read_batch_bool(cursor: &mut ByteCursor, field: &'static str) -> (result: Result<
    bool,
    FSETypedRecordBatchArchiveCodecError,
>)
    requires
        old(cursor).wf(),
    ensures
        final(cursor).wf(),
        final(cursor).bytes@ == old(cursor).bytes@,
        result matches Ok(flag) ==> old(cursor).rest() == seq![bool_byte(flag)] + final(cursor).rest(),
        old(cursor).rest().len() >= 1 && old(cursor).rest()[0] <= 1 ==> result is Ok,
        old(cursor).rest().len() >= 1 && old(cursor).rest()[0] > 1 ==> result == Err::<
            bool,
            FSETypedRecordBatchArchiveCodecError,
        >(
            FSETypedRecordBatchArchiveCodecError::InvalidBoolean {
                field,
                value: old(cursor).rest()[0],
            },
        ),
{
    let value = match cursor.read_u8() {
        Ok(value) => value,
        Err(error) => return Err(lift(error, field)),
    };
    proof {
        assert(old(cursor).rest() =~= seq![value] + cursor.rest());
    }
    if value == 0 {
        Ok(false)
    } else if value == 1 {
        Ok(true)
    } else {
        Err(FSETypedRecordBatchArchiveCodecError::InvalidBoolean { field, value })
    }
}

fn read_batch_field_type_tag(cursor: &mut ByteCursor, field: &'static str) -> (result: Result<
    FSEFieldTypeArchiveTag,
    FSETypedRecordBatchArchiveCodecError,
>)
    requires
        old(cursor).wf(),
    ensures
        final(cursor).wf(),
        final(cursor).bytes@ == old(cursor).bytes@,
        result matches Ok(tag) ==> old(cursor).rest() == seq![compact_field_type_tag(tag)] + final(cursor).rest(),
        old(cursor).rest().len() >= 1 && old(cursor).rest()[0] <= 5 ==> result is Ok,
        old(cursor).rest().len() >= 1 && old(cursor).rest()[0] > 5 ==> result == Err::<
            FSEFieldTypeArchiveTag,
            FSETypedRecordBatchArchiveCodecError,
        >(
            FSETypedRecordBatchArchiveCodecError::InvalidFieldTypeTag {
                field,
                value: old(cursor).rest()[0],
            },
        ),
{
    let value = match cursor.read_u8() {
        Ok(value) => value,
        Err(error) => return Err(lift(error, field)),
    };
    proof {
        assert(old(cursor).rest() =~= seq![value] + cursor.rest());
    }
    if value == 0 {
        Ok(FSEFieldTypeArchiveTag::Integer)
    } else if value == 1 {
        Ok(FSEFieldTypeArchiveTag::Float)
    } else if value == 2 {
        Ok(FSEFieldTypeArchiveTag::Text)
    } else if value == 3 {
        Ok(FSEFieldTypeArchiveTag::Boolean)
    } else if value == 4 {
        Ok(FSEFieldTypeArchiveTag::TimestampMillis)
    } else if value == 5 {
        Ok(FSEFieldTypeArchiveTag::Category)
    } else {
        Err(FSETypedRecordBatchArchiveCodecError::InvalidFieldTypeTag { field, value })
    }
}

fn read_batch_field(cursor: &mut ByteCursor, Ghost(target): Ghost<Option<FSEFieldArchiveRecord>>) -> (result: Result<
    FSEFieldArchiveRecord,
    FSETypedRecordBatchArchiveCodecError,
>)
    requires
        old(cursor).wf(),
        target matches Some(field) ==> starts_with(old(cursor).rest(), typed_field_bytes(field)),
    ensures
        final(cursor).wf(),
        final(cursor).bytes@ == old(cursor).bytes@,
        result matches Ok(field) ==> old(cursor).rest() == typed_field_bytes(field) + final(cursor).rest(),
        target matches Some(field) ==> (result matches Ok(read) && field_matches(read, field)),
{
    let ghost start = cursor.rest();
    let ghost name_target: Option<Seq<char>> = match target {
        Some(field) => Some(field.name@),
        None => None,
    };
    proof {
        if let Some(field) = target {
            lemma_starts_with_split(
                start,
                string_field_bytes(field.name@),
                seq![compact_field_type_tag(field.field_type), bool_byte(field.nullable)],
            );
        }
    }
    let name = match read_batch_text(cursor, "typed_batch.schema.field.name", Ghost(name_target)) {
        Ok(name) => name,
        Err(error) => return Err(error),
    };
    let ghost after_name = cursor.rest();
    proof {
        if let Some(field) = target {
            assert(after_name =~= start.subrange(
                string_field_bytes(field.name@).len() as int,
                start.len() as int,
            ));
            let tail = seq![compact_field_type_tag(field.field_type), bool_byte(field.nullable)];
            assert(after_name[0] == tail[0]);
            assert(after_name[1] == tail[1]);
        }
    }
    let field_type = match read_batch_field_type_tag(cursor, "typed_batch.schema.field.field_type") {
        Ok(tag) => tag,
        Err(error) => return Err(error),
    };
    let nullable = match read_batch_bool(cursor, "typed_batch.schema.field.nullable") {
        Ok(flag) => flag,
        Err(error) => return Err(error),
    };
    let field = FSEFieldArchiveRecord { name, field_type, nullable };
    proof {
        assert(start =~= typed_field_bytes(field) + cursor.rest());
        if let Some(expected) = target {
            assert(field_type == expected.field_type) by {
                match expected.field_type {
                    FSEFieldTypeArchiveTag::Integer => {},
                    FSEFieldTypeArchiveTag::Float => {},
                    FSEFieldTypeArchiveTag::Text => {},
                    FSEFieldTypeArchiveTag::Boolean => {},
                    FSEFieldTypeArchiveTag::TimestampMillis => {},
                    FSEFieldTypeArchiveTag::Category => {},
                }
                match field_type {
                    FSEFieldTypeArchiveTag::Integer => {},
                    FSEFieldTypeArchiveTag::Float => {},
                    FSEFieldTypeArchiveTag::Text => {},
                    FSEFieldTypeArchiveTag::Boolean => {},
                    FSEFieldTypeArchiveTag::TimestampMillis => {},
                    FSEFieldTypeArchiveTag::Category => {},
                }
            }
        }
    }
    Ok(field)
}

fn read_batch_value(cursor: &mut ByteCursor, field: &'static str, Ghost(target): Ghost<Option<FSEValueArchiveRecord>>) -> (result: Result<
    FSEValueArchiveRecord,
    FSETypedRecordBatchArchiveCodecError,
>)
    requires
        old(cursor).wf(),
        target matches Some(value) ==> starts_with(old(cursor).rest(), typed_value_bytes(value)),
    ensures
        final(cursor).wf(),
        final(cursor).bytes@ == old(cursor).bytes@,
        result matches Ok(value) ==> old(cursor).rest() == typed_value_bytes(value) + final(cursor).rest(),
        target matches Some(value) ==> (result matches Ok(read) && value_matches(read, value)),
        old(cursor).rest().len() >= 1 && old(cursor).rest()[0] > 6 ==> result == Err::<
            FSEValueArchiveRecord,
            FSETypedRecordBatchArchiveCodecError,
        >(
            FSETypedRecordBatchArchiveCodecError::InvalidValueTag {
                field,
                value: old(cursor).rest()[0],
            },
        ),
{
    let ghost start = cursor.rest();
    let ghost has_target = target is Some;
    let ghost expected = match target {
        Some(value) => value,
        None => FSEValueArchiveRecord::Null,
    };
    let ghost encoded = typed_value_bytes(expected);
    proof {
        lemma_auto_spec_u64_to_from_le_bytes();
        if has_target {
            assert(start.subrange(0, encoded.len() as int) == encoded);
            assert(start[0] == encoded[0]);
        }
    }
    let tag = match cursor.read_u8() {
        Ok(tag) => tag,
        Err(error) => return Err(lift(error, field)),
    };
    let ghost after_tag = cursor.rest();
    proof {
        assert(start =~= seq![tag] + after_tag);
        if has_target {
            assert(after_tag.subrange(0, encoded.len() - 1) =~= encoded.subrange(1, encoded.len() as int));
        }
    }
    let value = if tag == 0 {
        FSEValueArchiveRecord::Null
    } else if tag == 1 || tag == 5 {
        proof {
            if has_target {
                assert(after_tag.subrange(0, 8) =~= encoded.subrange(1, 9));
            }
        }
        let raw = match cursor.read_u64() {
            Ok(raw) => raw,
            Err(error) => return Err(lift(error, field)),
        };
        proof {
            assert(((raw as i64) as u64) == raw) by (bit_vector);
            assert(after_tag.subrange(0, 8) =~= spec_u64_to_le_bytes(raw));
            assert(after_tag =~= after_tag.subrange(0, 8) + cursor.rest());
            if has_target {
                match expected {
                    FSEValueArchiveRecord::Integer(v) => {
                        assert(encoded.subrange(1, 9) =~= spec_u64_to_le_bytes(v as u64));
                        assert(raw == v as u64);
                        assert(((v as u64) as i64) == v) by (bit_vector);
                    },
                    FSEValueArchiveRecord::TimestampMillis(v) => {
                        assert(encoded.subrange(1, 9) =~= spec_u64_to_le_bytes(v as u64));
                        assert(raw == v as u64);
                        assert(((v as u64) as i64) == v) by (bit_vector);
                    },
                    _ => {},
                }
            }
        }
        if tag == 1 {
            FSEValueArchiveRecord::Integer(raw as i64)
        } else {
            FSEValueArchiveRecord::TimestampMillis(raw as i64)
        }
    } else if tag == 2 {
        proof {
            if has_target {
                assert(after_tag.subrange(0, 8) =~= encoded.subrange(1, 9));
            }
        }
        let bits = match cursor.read_u64() {
            Ok(bits) => bits,
            Err(error) => return Err(lift(error, field)),
        };
        proof {
            assert(after_tag.subrange(0, 8) =~= spec_u64_to_le_bytes(bits));
            assert(after_tag =~= after_tag.subrange(0, 8) + cursor.rest());
            if has_target {
                if let FSEValueArchiveRecord::Float(expected_bits) = expected {
                    assert(encoded.subrange(1, 9) =~= spec_u64_to_le_bytes(expected_bits));
                    assert(bits == expected_bits);
                }
            }
        }
        FSEValueArchiveRecord::Float(bits)
    } else if tag == 3 || tag == 6 {
        let ghost text_target: Option<Seq<char>> = match target {
            Some(FSEValueArchiveRecord::Text(text)) => Some(text@),
            Some(FSEValueArchiveRecord::Category(label)) => Some(label@),
            _ => None,
        };
        proof {
            if has_target {
                match expected {
                    FSEValueArchiveRecord::Text(text) => {
                        assert(encoded.subrange(1, encoded.len() as int) =~= string_field_bytes(text@));
                    },
                    FSEValueArchiveRecord::Category(label) => {
                        assert(encoded.subrange(1, encoded.len() as int) =~= string_field_bytes(
                            label@,
                        ));
                    },
                    _ => {},
                }
            }
        }
        let text = match read_batch_text(cursor, field, Ghost(text_target)) {
            Ok(text) => text,
            Err(error) => return Err(error),
        };
        if tag == 3 {
            FSEValueArchiveRecord::Text(text)
        } else {
            FSEValueArchiveRecord::Category(text)
        }
    } else if tag == 4 {
        proof {
            if has_target {
                assert(after_tag[0] == encoded[1]);
            }
        }
        let flag = match read_batch_bool(cursor, field) {
            Ok(flag) => flag,
            Err(error) => return Err(error),
        };
        proof {
            if has_target {
                if let FSEValueArchiveRecord::Boolean(expected_flag) = expected {
                    assert(bool_byte(flag) == bool_byte(expected_flag));
                }
            }
        }
        FSEValueArchiveRecord::Boolean(flag)
    } else {
        return Err(FSETypedRecordBatchArchiveCodecError::InvalidValueTag { field, value: tag });
    };
    proof {
        assert(start =~= typed_value_bytes(value) + cursor.rest());
        if has_target {
            if let FSEValueArchiveRecord::Integer(v) = expected {
                assert(spec_u64_from_le_bytes(spec_u64_to_le_bytes(v as u64)) == v as u64);
                assert(((v as u64) as i64) == v) by (bit_vector);
            }
            if let FSEValueArchiveRecord::TimestampMillis(v) = expected {
                assert(spec_u64_from_le_bytes(spec_u64_to_le_bytes(v as u64)) == v as u64);
                assert(((v as u64) as i64) == v) by (bit_vector);
            }
        }
    }
    Ok(value)
}


proof fn lemma_typed_values_concat(left: Seq<FSEValueArchiveRecord>, right: Seq<FSEValueArchiveRecord>)
    ensures
        typed_values_bytes(left + right) == typed_values_bytes(left) + typed_values_bytes(right),
    decreases right.len(),
{
    if right.len() == 0 {
        assert(left + right =~= left);
    } else {
        lemma_typed_values_concat(left, right.drop_last());
        assert((left + right).drop_last() =~= left + right.drop_last());
    }
}

proof fn lemma_typed_values_first(items: Seq<FSEValueArchiveRecord>, index: int)
    requires
        0 <= index < items.len(),
    ensures
        typed_values_bytes(items.subrange(index, items.len() as int)) == typed_value_bytes(items[index]) + typed_values_bytes(
            items.subrange(index + 1, items.len() as int),
        ),
{
    let tail = items.subrange(index + 1, items.len() as int);
    assert(items.subrange(index, items.len() as int) =~= seq![items[index]] + tail);
    lemma_typed_values_concat(seq![items[index]], tail);
    reveal_with_fuel(typed_values_bytes, 2);
    assert(seq![items[index]].drop_last() =~= Seq::<FSEValueArchiveRecord>::empty());
    assert(typed_values_bytes(seq![items[index]]) =~= typed_value_bytes(items[index]));
}

proof fn lemma_typed_fields_concat(left: Seq<FSEFieldArchiveRecord>, right: Seq<FSEFieldArchiveRecord>)
    ensures
        typed_fields_bytes(left + right) == typed_fields_bytes(left) + typed_fields_bytes(right),
    decreases right.len(),
{
    if right.len() == 0 {
        assert(left + right =~= left);
    } else {
        lemma_typed_fields_concat(left, right.drop_last());
        assert((left + right).drop_last() =~= left + right.drop_last());
    }
}

proof fn lemma_typed_fields_first(items: Seq<FSEFieldArchiveRecord>, index: int)
    requires
        0 <= index < items.len(),
    ensures
        typed_fields_bytes(items.subrange(index, items.len() as int)) == typed_field_bytes(items[index]) + typed_fields_bytes(
            items.subrange(index + 1, items.len() as int),
        ),
{
    let tail = items.subrange(index + 1, items.len() as int);
    assert(items.subrange(index, items.len() as int) =~= seq![items[index]] + tail);
    lemma_typed_fields_concat(seq![items[index]], tail);
    reveal_with_fuel(typed_fields_bytes, 2);
    assert(seq![items[index]].drop_last() =~= Seq::<FSEFieldArchiveRecord>::empty());
    assert(typed_fields_bytes(seq![items[index]]) =~= typed_field_bytes(items[index]));
}

proof fn lemma_typed_records_concat(left: Seq<FSERecordArchiveRecord>, right: Seq<FSERecordArchiveRecord>)
    ensures
        typed_records_bytes(left + right) == typed_records_bytes(left) + typed_records_bytes(right),
    decreases right.len(),
{
    if right.len() == 0 {
        assert(left + right =~= left);
    } else {
        lemma_typed_records_concat(left, right.drop_last());
        assert((left + right).drop_last() =~= left + right.drop_last());
    }
}

proof fn lemma_typed_records_first(items: Seq<FSERecordArchiveRecord>, index: int)
    requires
        0 <= index < items.len(),
    ensures
        typed_records_bytes(items.subrange(index, items.len() as int)) == typed_record_bytes(items[index]) + typed_records_bytes(
            items.subrange(index + 1, items.len() as int),
        ),
{
    let tail = items.subrange(index + 1, items.len() as int);
    assert(items.subrange(index, items.len() as int) =~= seq![items[index]] + tail);
    lemma_typed_records_concat(seq![items[index]], tail);
    reveal_with_fuel(typed_records_bytes, 2);
    assert(seq![items[index]].drop_last() =~= Seq::<FSERecordArchiveRecord>::empty());
    assert(typed_records_bytes(seq![items[index]]) =~= typed_record_bytes(items[index]));
}

fn read_batch_record(cursor: &mut ByteCursor, Ghost(target): Ghost<Option<FSERecordArchiveRecord>>) -> (result: Result<
    FSERecordArchiveRecord,
    FSETypedRecordBatchArchiveCodecError,
>)
    requires
        old(cursor).wf(),
        target matches Some(record) ==> starts_with(old(cursor).rest(), typed_record_bytes(record)),
    ensures
        final(cursor).wf(),
        final(cursor).bytes@ == old(cursor).bytes@,
        result matches Ok(record) ==> old(cursor).rest() == typed_record_bytes(record) + final(cursor).rest(),
        target matches Some(record) ==> (result matches Ok(read) && read.values@.len()
            == record.values@.len() && forall|i: int|
            0 <= i < record.values@.len() ==> value_matches(
                #[trigger] read.values@[i],
                record.values@[i],
            )),
{
    let ghost has_target = target is Some;
    let ghost expected: Seq<FSEValueArchiveRecord> = match target {
        Some(record) => record.values@,
        None => Seq::empty(),
    };
    let ghost start = cursor.rest();
    let ghost encoded = spec_u64_to_le_bytes(expected.len() as u64) + typed_values_bytes(expected);
    let ghost tail = start.subrange(encoded.len() as int, start.len() as int);
    proof {
        lemma_auto_spec_u64_to_from_le_bytes();
        if has_target {
            assert(start.subrange(0, encoded.len() as int) == encoded);
            assert(start =~= encoded + tail);
            assert(start.subrange(0, 8) =~= spec_u64_to_le_bytes(expected.len() as u64));
            lemma_typed_values_len(expected);
        }
    }
    let count = match cursor.read_len() {
        Ok(count) => count,
        Err(error) => return Err(lift(error, "typed_batch.record.value_count")),
    };
    let ghost after_count = cursor.rest();
    proof {
        assert(start =~= spec_u64_to_le_bytes(count as u64) + after_count);
        if has_target {
            assert(after_count =~= typed_values_bytes(expected) + tail);
            assert(expected.subrange(0, expected.len() as int) =~= expected);
        }
    }
    let mut values: Vec<FSEValueArchiveRecord> = Vec::with_capacity(count);
    let mut index: usize = 0;
    while index < count
        invariant
            cursor.wf(),
            cursor.bytes@ == old(cursor).bytes@,
            has_target == (target is Some),
            index <= count,
            values@.len() == index,
            after_count == typed_values_bytes(values@) + cursor.rest(),
            has_target ==> {
                &&& count == expected.len()
                &&& cursor.rest() == typed_values_bytes(expected.subrange(index as int, expected.len() as int)) + tail
                &&& forall|i: int| 0 <= i < index ==> value_matches(#[trigger] values@[i], expected[i])
            },
        decreases count - index,
    {
        let ghost element: Option<FSEValueArchiveRecord> = if has_target {
            Some(expected[index as int])
        } else {
            None
        };
        let ghost before = cursor.rest();
        proof {
            if has_target {
                lemma_typed_values_first(expected, index as int);
                let later = typed_values_bytes(expected.subrange(index + 1, expected.len() as int)) + tail;
                assert(before =~= typed_value_bytes(expected[index as int]) + later);
                assert(before.subrange(0, typed_value_bytes(expected[index as int]).len() as int)
                    =~= typed_value_bytes(expected[index as int]));
            }
        }
        let value = match read_batch_value(cursor, "typed_batch.record.value", Ghost(element)) {
            Ok(value) => value,
            Err(error) => return Err(error),
        };
        let ghost previous = values@;
        values.push(value);
        proof {
            assert(values@.drop_last() =~= previous);
            assert(after_count =~= typed_values_bytes(values@) + cursor.rest());
            if has_target {
                let later = typed_values_bytes(expected.subrange(index + 1, expected.len() as int)) + tail;
                lemma_typed_value_agree(value, expected[index as int]);
                let width = typed_value_bytes(value).len() as int;
                assert(cursor.rest() =~= before.subrange(width, before.len() as int));
                assert(later =~= before.subrange(width, before.len() as int));
            }
        }
        index = index + 1;
    }
    let record = FSERecordArchiveRecord { values };
    proof {
        assert(start =~= typed_record_bytes(record) + cursor.rest());
    }
    Ok(record)
}

proof fn lemma_typed_values_len(values: Seq<FSEValueArchiveRecord>)
    ensures
        typed_values_bytes(values).len() >= values.len(),
    decreases values.len(),
{
    if values.len() > 0 {
        lemma_typed_values_len(values.drop_last());
    }
}

proof fn lemma_typed_value_agree(left: FSEValueArchiveRecord, right: FSEValueArchiveRecord)
    requires
        value_matches(left, right),
    ensures
        typed_value_bytes(left) == typed_value_bytes(right),
{
}


fn read_batch_u64_vec(cursor: &mut ByteCursor, field: &'static str, Ghost(target): Ghost<Option<Seq<u64>>>) -> (result: Result<
    Vec<u64>,
    FSETypedRecordBatchArchiveCodecError,
>)
    requires
        old(cursor).wf(),
        target matches Some(values) ==> starts_with(old(cursor).rest(), u64_vec_bytes(values)),
    ensures
        final(cursor).wf(),
        final(cursor).bytes@ == old(cursor).bytes@,
        result matches Ok(read) ==> old(cursor).rest() == u64_vec_bytes(read@) + final(cursor).rest(),
        target matches Some(values) ==> (result matches Ok(read) && read@ == values)
            && final(cursor).rest() == old(cursor).rest().subrange(
            u64_vec_bytes(values).len() as int,
            old(cursor).rest().len() as int,
        ),
{
    let ghost has_target = target is Some;
    let ghost values: Seq<u64> = match target {
        Some(values) => values,
        None => Seq::empty(),
    };
    let ghost start = cursor.rest();
    let ghost encoded = u64_vec_bytes(values);
    proof {
        lemma_auto_spec_u64_to_from_le_bytes();
        lemma_u64s_le_bytes(values);
        if has_target {
            assert(start.subrange(0, encoded.len() as int) == encoded);
            assert(start.subrange(0, 8) =~= encoded.subrange(0, 8));
            assert(encoded.subrange(0, 8) =~= spec_u64_to_le_bytes(values.len() as u64));
            assert(encoded.len() == 8 + 8 * values.len());
        }
    }
    let length = match cursor.read_len() {
        Ok(length) => length,
        Err(error) => return Err(lift(error, field)),
    };
    let byte_length = match length.checked_mul(8) {
        Some(byte_length) => byte_length,
        None => {
            return Err(
                FSETypedRecordBatchArchiveCodecError::LengthOutOfRange {
                    field,
                    length: length as u64,
                },
            );
        },
    };
    if byte_length > cursor.remaining() {
        return Err(
            FSETypedRecordBatchArchiveCodecError::UnexpectedEndOfArchive {
                field,
                needed: byte_length,
                remaining: cursor.remaining(),
            },
        );
    }
    let ghost body = cursor.rest();
    proof {
        if has_target {
            let chunks = u64s_le_bytes(values);
            assert(body =~= start.subrange(8, start.len() as int));
            assert(body.subrange(0, chunks.len() as int) =~= encoded.subrange(8, encoded.len() as int));
            assert(encoded.subrange(8, encoded.len() as int) =~= chunks);
            assert forall|i: int| 0 <= i < values.len() implies #[trigger] body.subrange(
                8 * i,
                8 * i + 8,
            ) == spec_u64_to_le_bytes(values[i]) by {
                assert(body.subrange(8 * i, 8 * i + 8) =~= body.subrange(0, chunks.len() as int).subrange(
                    8 * i,
                    8 * i + 8,
                ));
            }
            assert(values.subrange(0, 0) =~= Seq::<u64>::empty());
        }
    }
    let mut read: Vec<u64> = Vec::with_capacity(length);
    let mut index: usize = 0;
    while index < length
        invariant
            cursor.wf(),
            cursor.bytes@ == old(cursor).bytes@,
            has_target == (target is Some),
            index <= length,
            read@.len() == index,
            body.len() >= 8 * length,
            cursor.rest() == body.subrange(8 * index, body.len() as int),
            body.subrange(0, 8 * index) == u64s_le_bytes(read@),
            has_target ==> {
                &&& length == values.len()
                &&& read@ == values.subrange(0, index as int)
                &&& forall|i: int|
                    0 <= i < values.len() ==> #[trigger] body.subrange(8 * i, 8 * i + 8)
                        == spec_u64_to_le_bytes(values[i])
            },
        decreases length - index,
    {
        proof {
            let rest = body.subrange(8 * index, body.len() as int);
            assert(rest.subrange(0, 8) =~= body.subrange(8 * index, 8 * index + 8));
        }
        let value = match cursor.read_u64() {
            Ok(value) => value,
            Err(error) => return Err(lift(error, field)),
        };
        proof {
            lemma_auto_spec_u64_to_from_le_bytes();
            assert(cursor.rest() =~= body.subrange(8 * (index + 1), body.len() as int));
        }
        let ghost before = read@;
        read.push(value);
        proof {
            assert(read@.drop_last() =~= before);
            assert(body.subrange(8 * index, 8 * index + 8) =~= body.subrange(8 * index, body.len() as int).subrange(0, 8));
            assert(body.subrange(0, 8 * (index + 1)) =~= body.subrange(0, 8 * index) + body.subrange(
                8 * index,
                8 * index + 8,
            ));
            if has_target {
                assert(read@ =~= values.subrange(0, index + 1));
            }
        }
        index = index + 1;
    }
    proof {
        assert(start =~= start.subrange(0, 8) + body);
        assert(body =~= body.subrange(0, 8 * length) + cursor.rest());
        assert(start.subrange(0, 8) =~= spec_u64_to_le_bytes(length as u64));
        assert(start =~= u64_vec_bytes(read@) + cursor.rest());
        if has_target {
            assert(read@ =~= values);
            assert(cursor.rest() =~= start.subrange(encoded.len() as int, start.len() as int));
        }
    }
    Ok(read)
}

/// The decoded snapshot encodes like any snapshot with the same content.
proof fn lemma_typed_batch_agree(left: FSERecordBatchArchiveSnapshot, right: FSERecordBatchArchiveSnapshot)
    requires
        snapshot_matches(left, right),
    ensures
        typed_batch_bytes(left) == typed_batch_bytes(right),
{
    lemma_typed_fields_agree(left.schema_fields@, right.schema_fields@);
    lemma_typed_records_agree(left.records@, right.records@);
}

proof fn lemma_typed_fields_agree(left: Seq<FSEFieldArchiveRecord>, right: Seq<FSEFieldArchiveRecord>)
    requires
        left.len() == right.len(),
        forall|i: int| 0 <= i < right.len() ==> field_matches(#[trigger] left[i], right[i]),
    ensures
        typed_fields_bytes(left) == typed_fields_bytes(right),
    decreases right.len(),
{
    if right.len() > 0 {
        assert(field_matches(left[right.len() - 1], right[right.len() - 1]));
        lemma_typed_fields_agree(left.drop_last(), right.drop_last());
    }
}

proof fn lemma_typed_values_agree(left: Seq<FSEValueArchiveRecord>, right: Seq<FSEValueArchiveRecord>)
    requires
        left.len() == right.len(),
        forall|i: int| 0 <= i < right.len() ==> value_matches(#[trigger] left[i], right[i]),
    ensures
        typed_values_bytes(left) == typed_values_bytes(right),
    decreases right.len(),
{
    if right.len() > 0 {
        assert(value_matches(left[right.len() - 1], right[right.len() - 1]));
        lemma_typed_value_agree(left[right.len() - 1], right[right.len() - 1]);
        lemma_typed_values_agree(left.drop_last(), right.drop_last());
    }
}

proof fn lemma_typed_records_agree(left: Seq<FSERecordArchiveRecord>, right: Seq<FSERecordArchiveRecord>)
    requires
        left.len() == right.len(),
        forall|r: int| 0 <= r < right.len() ==> #[trigger] left[r].values@.len() == right[r].values@.len(),
        forall|r: int, f: int|
            0 <= r < right.len() && 0 <= f < left[r].values@.len() ==> value_matches(
                #[trigger] left[r].values@[f],
                right[r].values@[f],
            ),
    ensures
        typed_records_bytes(left) == typed_records_bytes(right),
    decreases right.len(),
{
    if right.len() > 0 {
        let last = right.len() - 1;
        assert(left[last].values@.len() == right[last].values@.len());
        assert forall|f: int| 0 <= f < right[last].values@.len() implies value_matches(
            #[trigger] left[last].values@[f],
            right[last].values@[f],
        ) by {
            assert(value_matches(left[last].values@[f], right[last].values@[f]));
        }
        lemma_typed_values_agree(left[last].values@, right[last].values@);
        lemma_typed_records_agree(left.drop_last(), right.drop_last());
    }
}

fn read_batch_fields(cursor: &mut ByteCursor, count: usize, Ghost(target): Ghost<Option<Seq<FSEFieldArchiveRecord>>>) -> (result: Result<
    Vec<FSEFieldArchiveRecord>,
    FSETypedRecordBatchArchiveCodecError,
>)
    requires
        old(cursor).wf(),
        target matches Some(fields) ==> fields.len() == count && starts_with(
            old(cursor).rest(),
            typed_fields_bytes(fields),
        ),
    ensures
        final(cursor).wf(),
        final(cursor).bytes@ == old(cursor).bytes@,
        result matches Ok(read) ==> read@.len() == count && old(cursor).rest() == typed_fields_bytes(read@)
            + final(cursor).rest(),
        target matches Some(fields) ==> (result matches Ok(read) && forall|i: int|
            0 <= i < count ==> field_matches(#[trigger] read@[i], fields[i]))
            && final(cursor).rest() == old(cursor).rest().subrange(
            typed_fields_bytes(fields).len() as int,
            old(cursor).rest().len() as int,
        ),
{
    let ghost has_target = target is Some;
    let ghost expected: Seq<FSEFieldArchiveRecord> = match target {
        Some(fields) => fields,
        None => Seq::empty(),
    };
    let ghost start = cursor.rest();
    let ghost tail = start.subrange(typed_fields_bytes(expected).len() as int, start.len() as int);
    proof {
        if has_target {
            assert(start =~= typed_fields_bytes(expected) + tail);
            assert(expected.subrange(0, expected.len() as int) =~= expected);
        }
    }
    let mut read: Vec<FSEFieldArchiveRecord> = Vec::with_capacity(count);
    let mut index: usize = 0;
    while index < count
        invariant
            cursor.wf(),
            cursor.bytes@ == old(cursor).bytes@,
            has_target == (target is Some),
            has_target ==> target == Some(expected),
            index <= count,
            read@.len() == index,
            start == typed_fields_bytes(read@) + cursor.rest(),
            has_target ==> {
                &&& expected.len() == count
                &&& cursor.rest() == typed_fields_bytes(
                    expected.subrange(index as int, expected.len() as int),
                ) + tail
                &&& forall|i: int| 0 <= i < index ==> field_matches(#[trigger] read@[i], expected[i])
            },
        decreases count - index,
    {
        let ghost element: Option<FSEFieldArchiveRecord> = if has_target {
            Some(expected[index as int])
        } else {
            None
        };
        let ghost before = cursor.rest();
        proof {
            if has_target {
                lemma_typed_fields_first(expected, index as int);
                let piece = typed_field_bytes(expected[index as int]);
                let later = typed_fields_bytes(expected.subrange(index + 1, expected.len() as int)) + tail;
                assert(before =~= piece + later);
                assert(before.subrange(0, piece.len() as int) =~= piece);
            }
        }
        let field = match read_batch_field(cursor, Ghost(element)) {
            Ok(field) => field,
            Err(error) => return Err(error),
        };
        proof {
            if has_target {
                let piece = typed_field_bytes(expected[index as int]);
                let later = typed_fields_bytes(expected.subrange(index + 1, expected.len() as int)) + tail;
                assert(typed_field_bytes(field) == piece);
                assert(cursor.rest() =~= before.subrange(piece.len() as int, before.len() as int));
                assert(later =~= before.subrange(piece.len() as int, before.len() as int));
            }
        }
        let ghost earlier = read@;
        read.push(field);
        proof {
            assert(read@.drop_last() =~= earlier);
            assert(start =~= typed_fields_bytes(read@) + cursor.rest());
        }
        index = index + 1;
    }
    proof {
        if has_target {
            assert(expected.subrange(count as int, expected.len() as int)
                =~= Seq::<FSEFieldArchiveRecord>::empty());
            assert(cursor.rest() =~= tail);
        }
    }
    Ok(read)
}

fn read_batch_records(cursor: &mut ByteCursor, count: usize, Ghost(target): Ghost<Option<Seq<FSERecordArchiveRecord>>>) -> (result: Result<
    Vec<FSERecordArchiveRecord>,
    FSETypedRecordBatchArchiveCodecError,
>)
    requires
        old(cursor).wf(),
        target matches Some(records) ==> records.len() == count && starts_with(
            old(cursor).rest(),
            typed_records_bytes(records),
        ),
    ensures
        final(cursor).wf(),
        final(cursor).bytes@ == old(cursor).bytes@,
        result matches Ok(read) ==> read@.len() == count && old(cursor).rest() == typed_records_bytes(read@)
            + final(cursor).rest(),
        target matches Some(records) ==> (result matches Ok(read) && (forall|r: int|
            0 <= r < count ==> #[trigger] read@[r].values@.len() == records[r].values@.len()) && (
        forall|r: int, f: int|
            0 <= r < count && 0 <= f < read@[r].values@.len() ==> value_matches(
                #[trigger] read@[r].values@[f],
                records[r].values@[f],
            ))) && final(cursor).rest() == old(cursor).rest().subrange(
            typed_records_bytes(records).len() as int,
            old(cursor).rest().len() as int,
        ),
{
    let ghost has_target = target is Some;
    let ghost expected: Seq<FSERecordArchiveRecord> = match target {
        Some(records) => records,
        None => Seq::empty(),
    };
    let ghost start = cursor.rest();
    let ghost tail = start.subrange(typed_records_bytes(expected).len() as int, start.len() as int);
    proof {
        if has_target {
            assert(start =~= typed_records_bytes(expected) + tail);
            assert(expected.subrange(0, expected.len() as int) =~= expected);
        }
    }
    let mut read: Vec<FSERecordArchiveRecord> = Vec::with_capacity(count);
    let mut index: usize = 0;
    while index < count
        invariant
            cursor.wf(),
            cursor.bytes@ == old(cursor).bytes@,
            has_target == (target is Some),
            has_target ==> target == Some(expected),
            index <= count,
            read@.len() == index,
            start == typed_records_bytes(read@) + cursor.rest(),
            has_target ==> {
                &&& expected.len() == count
                &&& cursor.rest() == typed_records_bytes(
                    expected.subrange(index as int, expected.len() as int),
                ) + tail
                &&& forall|r: int| 0 <= r < index ==> #[trigger] read@[r].values@.len() == expected[r].values@.len()
                &&& forall|r: int, f: int|
                    0 <= r < index && 0 <= f < read@[r].values@.len() ==> value_matches(
                        #[trigger] read@[r].values@[f],
                        expected[r].values@[f],
                    )
            },
        decreases count - index,
    {
        let ghost element: Option<FSERecordArchiveRecord> = if has_target {
            Some(expected[index as int])
        } else {
            None
        };
        let ghost before = cursor.rest();
        proof {
            if has_target {
                lemma_typed_records_first(expected, index as int);
                let piece = typed_record_bytes(expected[index as int]);
                let later = typed_records_bytes(expected.subrange(index + 1, expected.len() as int)) + tail;
                assert(before =~= piece + later);
                assert(before.subrange(0, piece.len() as int) =~= piece);
            }
        }
        let record = match read_batch_record(cursor, Ghost(element)) {
            Ok(record) => record,
            Err(error) => return Err(error),
        };
        proof {
            if has_target {
                let piece = typed_record_bytes(expected[index as int]);
                let later = typed_records_bytes(expected.subrange(index + 1, expected.len() as int)) + tail;
                lemma_typed_values_agree(record.values@, expected[index as int].values@);
                assert(typed_record_bytes(record) == piece);
                assert(cursor.rest() =~= before.subrange(piece.len() as int, before.len() as int));
                assert(later =~= before.subrange(piece.len() as int, before.len() as int));
            }
        }
        let ghost earlier = read@;
        read.push(record);
        proof {
            assert(read@.drop_last() =~= earlier);
            assert(start =~= typed_records_bytes(read@) + cursor.rest());
        }
        index = index + 1;
    }
    proof {
        if has_target {
            assert(expected.subrange(count as int, expected.len() as int)
                =~= Seq::<FSERecordArchiveRecord>::empty());
            assert(cursor.rest() =~= tail);
        }
    }
    Ok(read)
}

/// The bytes are the typed layout of a batch whose counts fit in memory,
/// followed by at least one more byte.
pub open spec fn typed_batch_with_trailing_bytes(
    snapshot: FSERecordBatchArchiveSnapshot,
    extra: Seq<u8>,
    bytes: Seq<u8>,
) -> bool {
    &&& snapshot.schema_fields@.len() <= usize::MAX
    &&& snapshot.records@.len() <= usize::MAX
    &&& extra.len() > 0
    &&& bytes == typed_batch_bytes(snapshot) + extra
}

/// Decodes a typed batch; where `goal` is a snapshot whose encoding is `bytes`, the
/// result matches it.
#[verifier::spinoff_prover]
#[verifier::rlimit(100)]
fn decode_typed_batch_toward(
    bytes: &[u8],
    Ghost(goal): Ghost<Option<(FSERecordBatchArchiveSnapshot, Seq<u8>)>>,
) -> (result: Result<FSERecordBatchArchiveSnapshot, FSETypedRecordBatchArchiveCodecError>)
    requires
        goal matches Some((target, extra)) ==> target.schema_fields@.len() <= usize::MAX
            && target.records@.len() <= usize::MAX && typed_batch_bytes(target) + extra == bytes@,
    ensures
        goal matches Some((target, extra)) ==> (extra.len() == 0 ==> (result matches Ok(decoded)
            && snapshot_matches(decoded, target) && typed_batch_bytes(decoded) == bytes@)),
        goal matches Some((target, extra)) ==> (extra.len() > 0 ==> result == Err::<
            FSERecordBatchArchiveSnapshot,
            FSETypedRecordBatchArchiveCodecError,
        >(FSETypedRecordBatchArchiveCodecError::TrailingBytes { remaining: extra.len() as usize })),
        result matches Ok(decoded) ==> typed_batch_bytes(decoded) == bytes@,
        bytes@.len() < 8 ==> result == Err::<FSERecordBatchArchiveSnapshot, FSETypedRecordBatchArchiveCodecError>(
            FSETypedRecordBatchArchiveCodecError::UnexpectedEndOfArchive {
                field: "typed_batch.schema.field_count",
                needed: 8,
                remaining: bytes@.len() as usize,
            },
        ),
{
    let ghost has_target = goal is Some;
    let ghost (target, extra): (FSERecordBatchArchiveSnapshot, Seq<u8>) = match goal {
        Some(pair) => pair,
        None => arbitrary(),
    };
    let ghost fields_part = typed_fields_bytes(target.schema_fields@);
    let ghost rows_part = u64_vec_bytes(target.row_ids@);
    let ghost records_part = typed_records_bytes(target.records@);
    let mut cursor = ByteCursor::new(bytes);
    proof {
        lemma_auto_spec_u64_to_from_le_bytes();
        if has_target {
            assert(bytes@ =~= spec_u64_to_le_bytes(target.schema_fields@.len() as u64) + fields_part
                + rows_part + spec_u64_to_le_bytes(target.records@.len() as u64) + records_part + extra);
            assert(bytes@.subrange(0, 8) =~= spec_u64_to_le_bytes(target.schema_fields@.len() as u64));
        }
    }
    let ghost at_fields_count = cursor.rest();
    let field_count = match cursor.read_len() {
        Ok(count) => count,
        Err(error) => return Err(lift(error, "typed_batch.schema.field_count")),
    };
    proof {
        if has_target {
            assert(cursor.rest() =~= fields_part + rows_part + spec_u64_to_le_bytes(
                target.records@.len() as u64,
            ) + records_part + extra);
            assert(cursor.rest().subrange(0, fields_part.len() as int) =~= fields_part);
        }
    }
    let ghost fields_target: Option<Seq<FSEFieldArchiveRecord>> = if has_target {
        Some(target.schema_fields@)
    } else {
        None
    };
    let ghost at_fields = cursor.rest();
    let schema_fields = match read_batch_fields(&mut cursor, field_count, Ghost(fields_target)) {
        Ok(fields) => fields,
        Err(error) => return Err(error),
    };
    proof {
        if has_target {
            assert(cursor.rest() =~= rows_part + spec_u64_to_le_bytes(target.records@.len() as u64)
                + records_part + extra);
            assert(cursor.rest().subrange(0, rows_part.len() as int) =~= rows_part);
        }
    }
    let ghost rows_target: Option<Seq<u64>> = if has_target {
        Some(target.row_ids@)
    } else {
        None
    };
    let ghost at_rows = cursor.rest();
    let row_ids = match read_batch_u64_vec(&mut cursor, "typed_batch.row_ids", Ghost(rows_target)) {
        Ok(row_ids) => row_ids,
        Err(error) => return Err(error),
    };
    proof {
        if has_target {
            assert(cursor.rest() =~= spec_u64_to_le_bytes(target.records@.len() as u64) + records_part + extra);
            assert(cursor.rest().subrange(0, 8) =~= spec_u64_to_le_bytes(target.records@.len() as u64));
        }
    }
    let ghost at_records_count = cursor.rest();
    let record_count = match cursor.read_len() {
        Ok(count) => count,
        Err(error) => return Err(lift(error, "typed_batch.record_count")),
    };
    proof {
        if has_target {
            assert(cursor.rest() =~= records_part + extra);
            assert(cursor.rest().subrange(0, records_part.len() as int) =~= records_part);
        }
    }
    let ghost records_target: Option<Seq<FSERecordArchiveRecord>> = if has_target {
        Some(target.records@)
    } else {
        None
    };
    let ghost at_records = cursor.rest();
    let records = match read_batch_records(&mut cursor, record_count, Ghost(records_target)) {
        Ok(records) => records,
        Err(error) => return Err(error),
    };
    if cursor.remaining() != 0 {
        proof {
            if has_target {
                assert(cursor.rest() =~= extra);
            }
        }
        return Err(
            FSETypedRecordBatchArchiveCodecError::TrailingBytes { remaining: cursor.remaining() },
        );
    }
    let snapshot = FSERecordBatchArchiveSnapshot { schema_fields, row_ids, records };
    proof {
        assert(at_fields_count =~= at_fields_count.subrange(0, 8) + at_fields);
        assert(at_records_count =~= at_records_count.subrange(0, 8) + at_records);
        assert(at_fields_count.subrange(0, 8) =~= spec_u64_to_le_bytes(snapshot.schema_fields@.len() as u64));
        assert(at_records_count.subrange(0, 8) =~= spec_u64_to_le_bytes(snapshot.records@.len() as u64));
        assert(cursor.rest() =~= Seq::<u8>::empty());
        assert(bytes@ =~= typed_batch_bytes(snapshot));
        if has_target {
            assert(cursor.rest() =~= extra);
            assert(extra.len() == 0);
            assert(bytes@ =~= typed_batch_bytes(target));
            assert(snapshot_matches(snapshot, target));
            lemma_typed_batch_agree(snapshot, target);
        }
    }
    Ok(snapshot)
}

/// Decodes a typed record batch archive snapshot from little-endian bytes.
/// Decoding the bytes that encoding produced gives back a snapshot with the same
/// fields, row ids and values, and bytes decode only when they are exactly the
/// layout of the batch they decode to. Input shorter than the field count is refused as
/// ending early, and an encoded batch followed by more bytes is refused with the
/// count of those bytes. The decoded batch is not checked against the typed
/// schema rules here.
pub fn decode_typed_record_batch_archive_snapshot(bytes: &[u8]) -> (result: Result<
    FSERecordBatchArchiveSnapshot,
    FSETypedRecordBatchArchiveCodecError,
>)
    ensures
        forall|snapshot: FSERecordBatchArchiveSnapshot|
            snapshot.schema_fields@.len() <= usize::MAX && snapshot.records@.len() <= usize::MAX
                && #[trigger] typed_batch_bytes(snapshot) == bytes@ ==> (result matches Ok(decoded)
                && typed_batch_bytes(decoded) == bytes@),
        (exists|snapshot: FSERecordBatchArchiveSnapshot|
            snapshot.schema_fields@.len() <= usize::MAX && snapshot.records@.len() <= usize::MAX
                && #[trigger] typed_batch_bytes(snapshot) == bytes@) ==> (result matches Ok(decoded)
            && exists|snapshot: FSERecordBatchArchiveSnapshot|
            #[trigger] typed_batch_bytes(snapshot) == bytes@ && snapshot_matches(decoded, snapshot)),
        forall|snapshot: FSERecordBatchArchiveSnapshot|
            snapshot.schema_fields@.len() <= usize::MAX && snapshot.records@.len() <= usize::MAX
                && #[trigger] typed_batch_bytes(snapshot) == bytes@ ==> (result matches Ok(decoded)
                && snapshot_matches(decoded, snapshot)),
        result matches Ok(decoded) ==> typed_batch_bytes(decoded) == bytes@,
        bytes@.len() < 8 ==> result == Err::<FSERecordBatchArchiveSnapshot, FSETypedRecordBatchArchiveCodecError>(
            FSETypedRecordBatchArchiveCodecError::UnexpectedEndOfArchive {
                field: "typed_batch.schema.field_count",
                needed: 8,
                remaining: bytes@.len() as usize,
            },
        ),
        (exists|snapshot: FSERecordBatchArchiveSnapshot, extra: Seq<u8>|
            #[trigger] typed_batch_with_trailing_bytes(snapshot, extra, bytes@)) ==> (result matches Err(
            FSETypedRecordBatchArchiveCodecError::TrailingBytes { remaining },
        ) && exists|snapshot: FSERecordBatchArchiveSnapshot, extra: Seq<u8>|
            #[trigger] typed_batch_with_trailing_bytes(snapshot, extra, bytes@) && remaining == extra.len()),
{
    let ghost has_target = exists|snapshot: FSERecordBatchArchiveSnapshot|
        snapshot.schema_fields@.len() <= usize::MAX && snapshot.records@.len() <= usize::MAX
            && #[trigger] typed_batch_bytes(snapshot) == bytes@;
    let ghost trailing = exists|snapshot: FSERecordBatchArchiveSnapshot, extra: Seq<u8>|
        #[trigger] typed_batch_with_trailing_bytes(snapshot, extra, bytes@);
    let ghost goal: Option<(FSERecordBatchArchiveSnapshot, Seq<u8>)> = if has_target {
        Some(
            (
                choose|snapshot: FSERecordBatchArchiveSnapshot|
                    snapshot.schema_fields@.len() <= usize::MAX && snapshot.records@.len() <= usize::MAX
                        && #[trigger] typed_batch_bytes(snapshot) == bytes@,
                Seq::<u8>::empty(),
            ),
        )
    } else if trailing {
        Some(
            choose|snapshot: FSERecordBatchArchiveSnapshot, extra: Seq<u8>|
                #[trigger] typed_batch_with_trailing_bytes(snapshot, extra, bytes@),
        )
    } else {
        None
    };
    proof {
        if has_target {
            let target = goal.unwrap().0;
            assert(typed_batch_bytes(target) + Seq::<u8>::empty() =~= bytes@);
            if trailing {
                let (other, extra) = choose|snapshot: FSERecordBatchArchiveSnapshot, extra: Seq<u8>|
                    #[trigger] typed_batch_with_trailing_bytes(snapshot, extra, bytes@);
                assert(bytes@.len() == bytes.len());
                lemma_typed_batch_bytes_unique_with_tails(target, other, Seq::<u8>::empty(), extra);
            }
        }
    }
    let byte_count = bytes.len();
    let result = decode_typed_batch_toward(bytes, Ghost(goal));
    proof {
        if has_target {
            let target = goal.unwrap().0;
            let decoded = result.unwrap();
            assert(typed_batch_bytes(target) == bytes@ && snapshot_matches(decoded, target));
            assert forall|snapshot: FSERecordBatchArchiveSnapshot|
                snapshot.schema_fields@.len() <= usize::MAX && snapshot.records@.len() <= usize::MAX
                    && #[trigger] typed_batch_bytes(snapshot) == bytes@ implies (result matches Ok(decoded)
                && snapshot_matches(decoded, snapshot)) by {
                assert(bytes@.len() == byte_count);
                lemma_typed_batch_bytes_injective(target, snapshot);
                lemma_snapshot_matches_trans(decoded, target, snapshot);
            }
        }
    }
    result
}

proof fn lemma_typed_fields_are_compact(fields: Seq<FSEFieldArchiveRecord>)
    ensures
        typed_fields_bytes(fields) == compact_batch_fields_bytes(fields),
    decreases fields.len(),
{
    if fields.len() > 0 {
        lemma_typed_fields_are_compact(fields.drop_last());
    }
}

proof fn lemma_typed_value_unique(a: FSEValueArchiveRecord, b: FSEValueArchiveRecord, x: Seq<u8>, y: Seq<u8>)
    requires
        typed_value_bytes(a) + x == typed_value_bytes(b) + y,
        (typed_value_bytes(a) + x).len() <= u64::MAX,
    ensures
        value_matches(a, b),
        typed_value_bytes(a) == typed_value_bytes(b),
        x == y,
{
    lemma_auto_spec_u64_to_from_le_bytes();
    let ea = typed_value_bytes(a);
    let eb = typed_value_bytes(b);
    assert((ea + x)[0] == ea[0]);
    assert((eb + y)[0] == eb[0]);
    let pa = ea.subrange(1, ea.len() as int);
    let pb = eb.subrange(1, eb.len() as int);
    assert(ea =~= seq![ea[0]] + pa);
    assert(eb =~= seq![eb[0]] + pb);
    assert(ea + x =~= seq![ea[0]] + (pa + x));
    assert(eb + y =~= seq![eb[0]] + (pb + y));
    lemma_concat_split(seq![ea[0]], pa + x, seq![eb[0]], pb + y);
    match (a, b) {
        (FSEValueArchiveRecord::Integer(u), FSEValueArchiveRecord::Integer(v)) => {
            assert(pa =~= spec_u64_to_le_bytes(u as u64));
            assert(pb =~= spec_u64_to_le_bytes(v as u64));
            assert(spec_u64_to_le_bytes(u as u64).len() == 8);
            assert(spec_u64_to_le_bytes(v as u64).len() == 8);
            lemma_concat_split(pa, x, pb, y);
            assert(u as u64 == v as u64);
            assert((u as u64) == (v as u64) ==> u == v) by (bit_vector);
        },
        (FSEValueArchiveRecord::TimestampMillis(u), FSEValueArchiveRecord::TimestampMillis(v)) => {
            assert(pa =~= spec_u64_to_le_bytes(u as u64));
            assert(pb =~= spec_u64_to_le_bytes(v as u64));
            assert(spec_u64_to_le_bytes(u as u64).len() == 8);
            assert(spec_u64_to_le_bytes(v as u64).len() == 8);
            lemma_concat_split(pa, x, pb, y);
            assert(u as u64 == v as u64);
            assert((u as u64) == (v as u64) ==> u == v) by (bit_vector);
        },
        (FSEValueArchiveRecord::Float(u), FSEValueArchiveRecord::Float(v)) => {
            assert(pa =~= spec_u64_to_le_bytes(u));
            assert(pb =~= spec_u64_to_le_bytes(v));
            assert(spec_u64_to_le_bytes(u).len() == 8);
            assert(spec_u64_to_le_bytes(v).len() == 8);
            lemma_concat_split(pa, x, pb, y);
        },
        (FSEValueArchiveRecord::Text(u), FSEValueArchiveRecord::Text(v)) => {
            assert(pa =~= string_field_bytes(u@));
            assert(pb =~= string_field_bytes(v@));
            lemma_string_field_prefix_unique(u@, v@, x, y);
        },
        (FSEValueArchiveRecord::Category(u), FSEValueArchiveRecord::Category(v)) => {
            assert(pa =~= string_field_bytes(u@));
            assert(pb =~= string_field_bytes(v@));
            lemma_string_field_prefix_unique(u@, v@, x, y);
        },
        (FSEValueArchiveRecord::Boolean(u), FSEValueArchiveRecord::Boolean(v)) => {
            assert(pa =~= seq![bool_byte(u)]);
            assert(pb =~= seq![bool_byte(v)]);
            lemma_concat_split(pa, x, pb, y);
            assert(pa[0] == pb[0]);
        },
        (FSEValueArchiveRecord::Null, FSEValueArchiveRecord::Null) => {
            assert(pa =~= Seq::<u8>::empty());
            assert(pb =~= Seq::<u8>::empty());
            assert(x =~= pa + x);
            assert(y =~= pb + y);
        },
        _ => {},
    }
}

proof fn lemma_typed_values_unique_from(
    a: Seq<FSEValueArchiveRecord>,
    b: Seq<FSEValueArchiveRecord>,
    index: int,
    x: Seq<u8>,
    y: Seq<u8>,
)
    requires
        a.len() == b.len(),
        0 <= index <= a.len(),
        typed_values_bytes(a.subrange(index, a.len() as int)) + x == typed_values_bytes(
            b.subrange(index, b.len() as int),
        ) + y,
        (typed_values_bytes(a.subrange(index, a.len() as int)) + x).len() <= u64::MAX,
    ensures
        forall|i: int| index <= i < a.len() ==> value_matches(#[trigger] a[i], b[i]),
        typed_values_bytes(a.subrange(index, a.len() as int)) == typed_values_bytes(
            b.subrange(index, b.len() as int),
        ),
        x == y,
    decreases a.len() - index,
{
    if index == a.len() {
        assert(a.subrange(index, a.len() as int) =~= Seq::<FSEValueArchiveRecord>::empty());
        assert(b.subrange(index, b.len() as int) =~= Seq::<FSEValueArchiveRecord>::empty());
        assert(x =~= Seq::<u8>::empty() + x);
        assert(y =~= Seq::<u8>::empty() + y);
    } else {
        lemma_typed_values_first(a, index);
        lemma_typed_values_first(b, index);
        let rest_a = typed_values_bytes(a.subrange(index + 1, a.len() as int));
        let rest_b = typed_values_bytes(b.subrange(index + 1, b.len() as int));
        assert((typed_value_bytes(a[index]) + rest_a) + x =~= typed_value_bytes(a[index]) + (rest_a + x));
        assert((typed_value_bytes(b[index]) + rest_b) + y =~= typed_value_bytes(b[index]) + (rest_b + y));
        lemma_typed_value_unique(a[index], b[index], rest_a + x, rest_b + y);
        lemma_typed_values_unique_from(a, b, index + 1, x, y);
    }
}

proof fn lemma_typed_record_unique(a: FSERecordArchiveRecord, b: FSERecordArchiveRecord, x: Seq<u8>, y: Seq<u8>)
    requires
        typed_record_bytes(a) + x == typed_record_bytes(b) + y,
        (typed_record_bytes(a) + x).len() <= u64::MAX,
    ensures
        a.values@.len() == b.values@.len(),
        forall|i: int| 0 <= i < a.values@.len() ==> value_matches(#[trigger] a.values@[i], b.values@[i]),
        typed_record_bytes(a) == typed_record_bytes(b),
        x == y,
{
    lemma_auto_spec_u64_to_from_le_bytes();
    let va = a.values@;
    let vb = b.values@;
    lemma_typed_values_len(va);
    lemma_typed_values_len(vb);
    let ca = spec_u64_to_le_bytes(va.len() as u64);
    let cb = spec_u64_to_le_bytes(vb.len() as u64);
    assert(ca.len() == 8 && cb.len() == 8);
    assert(typed_record_bytes(a) + x =~= ca + (typed_values_bytes(va) + x));
    assert(typed_record_bytes(b) + y =~= cb + (typed_values_bytes(vb) + y));
    lemma_concat_split(ca, typed_values_bytes(va) + x, cb, typed_values_bytes(vb) + y);
    assert(va.len() == vb.len());
    assert(va.subrange(0, va.len() as int) =~= va);
    assert(vb.subrange(0, vb.len() as int) =~= vb);
    lemma_typed_values_unique_from(va, vb, 0, x, y);
}

proof fn lemma_typed_records_unique_from(
    a: Seq<FSERecordArchiveRecord>,
    b: Seq<FSERecordArchiveRecord>,
    index: int,
    x: Seq<u8>,
    y: Seq<u8>,
)
    requires
        a.len() == b.len(),
        0 <= index <= a.len(),
        typed_records_bytes(a.subrange(index, a.len() as int)) + x == typed_records_bytes(
            b.subrange(index, b.len() as int),
        ) + y,
        (typed_records_bytes(a.subrange(index, a.len() as int)) + x).len() <= u64::MAX,
    ensures
        forall|r: int| index <= r < a.len() ==> #[trigger] a[r].values@.len() == b[r].values@.len(),
        forall|r: int, f: int|
            index <= r < a.len() && 0 <= f < a[r].values@.len() ==> value_matches(
                #[trigger] a[r].values@[f],
                b[r].values@[f],
            ),
        x == y,
    decreases a.len() - index,
{
    if index == a.len() {
        assert(a.subrange(index, a.len() as int) =~= Seq::<FSERecordArchiveRecord>::empty());
        assert(b.subrange(index, b.len() as int) =~= Seq::<FSERecordArchiveRecord>::empty());
        assert(x =~= Seq::<u8>::empty() + x);
        assert(y =~= Seq::<u8>::empty() + y);
    } else {
        lemma_typed_records_first(a, index);
        lemma_typed_records_first(b, index);
        let rest_a = typed_records_bytes(a.subrange(index + 1, a.len() as int));
        let rest_b = typed_records_bytes(b.subrange(index + 1, b.len() as int));
        assert((typed_record_bytes(a[index]) + rest_a) + x =~= typed_record_bytes(a[index]) + (rest_a + x));
        assert((typed_record_bytes(b[index]) + rest_b) + y =~= typed_record_bytes(b[index]) + (rest_b + y));
        lemma_typed_record_unique(a[index], b[index], rest_a + x, rest_b + y);
        lemma_typed_records_unique_from(a, b, index + 1, x, y);
    }
}

/// Two batches whose typed layouts are each followed by more bytes, and that
/// give the same bytes together, match and are followed by the same bytes.
#[verifier::spinoff_prover]
#[verifier::rlimit(60)]
proof fn lemma_typed_batch_bytes_unique_with_tails(
    left: FSERecordBatchArchiveSnapshot,
    right: FSERecordBatchArchiveSnapshot,
    x: Seq<u8>,
    y: Seq<u8>,
)
    requires
        snapshot_counts_fit(left),
        snapshot_counts_fit(right),
        typed_batch_bytes(left) + x == typed_batch_bytes(right) + y,
        (typed_batch_bytes(left) + x).len() <= u64::MAX,
    ensures
        snapshot_matches(left, right),
        x == y,
{
    lemma_auto_spec_u64_to_from_le_bytes();
    let fl = left.schema_fields@;
    let fr = right.schema_fields@;
    let rows_l = left.row_ids@;
    let rows_r = right.row_ids@;
    let recs_l = left.records@;
    let recs_r = right.records@;
    let nf_l = spec_u64_to_le_bytes(fl.len() as u64);
    let nf_r = spec_u64_to_le_bytes(fr.len() as u64);
    let tail_l = u64_vec_bytes(rows_l) + (spec_u64_to_le_bytes(recs_l.len() as u64) + (typed_records_bytes(recs_l) + x));
    let tail_r = u64_vec_bytes(rows_r) + (spec_u64_to_le_bytes(recs_r.len() as u64) + (typed_records_bytes(recs_r) + y));
    assert(typed_batch_bytes(left) + x =~= nf_l + (typed_fields_bytes(fl) + tail_l));
    assert(typed_batch_bytes(right) + y =~= nf_r + (typed_fields_bytes(fr) + tail_r));
    assert(nf_l.len() == 8 && nf_r.len() == 8);
    lemma_concat_split(nf_l, typed_fields_bytes(fl) + tail_l, nf_r, typed_fields_bytes(fr) + tail_r);
    assert(fl.len() == fr.len());
    lemma_typed_fields_are_compact(fl);
    lemma_typed_fields_are_compact(fr);
    assert(fl.subrange(0, fl.len() as int) =~= fl);
    assert(fr.subrange(0, fr.len() as int) =~= fr);
    lemma_compact_fields_unique_from(fl, fr, 0, tail_l, tail_r);
    let count_rows_l = spec_u64_to_le_bytes(rows_l.len() as u64);
    let count_rows_r = spec_u64_to_le_bytes(rows_r.len() as u64);
    lemma_u64s_le_bytes(rows_l);
    lemma_u64s_le_bytes(rows_r);
    let after_l = spec_u64_to_le_bytes(recs_l.len() as u64) + (typed_records_bytes(recs_l) + x);
    let after_r = spec_u64_to_le_bytes(recs_r.len() as u64) + (typed_records_bytes(recs_r) + y);
    assert(tail_l =~= count_rows_l + (u64s_le_bytes(rows_l) + after_l));
    assert(tail_r =~= count_rows_r + (u64s_le_bytes(rows_r) + after_r));
    assert(count_rows_l.len() == 8 && count_rows_r.len() == 8);
    lemma_concat_split(count_rows_l, u64s_le_bytes(rows_l) + after_l, count_rows_r, u64s_le_bytes(rows_r) + after_r);
    assert(rows_l.len() == rows_r.len());
    lemma_u64s_le_unique(rows_l, rows_r, after_l, after_r);
    let count_l = spec_u64_to_le_bytes(recs_l.len() as u64);
    let count_r = spec_u64_to_le_bytes(recs_r.len() as u64);
    assert(count_l.len() == 8 && count_r.len() == 8);
    lemma_concat_split(count_l, typed_records_bytes(recs_l) + x, count_r, typed_records_bytes(recs_r) + y);
    assert(recs_l.len() == recs_r.len());
    assert(recs_l.subrange(0, recs_l.len() as int) =~= recs_l);
    assert(recs_r.subrange(0, recs_r.len() as int) =~= recs_r);
    lemma_typed_records_unique_from(recs_l, recs_r, 0, x, y);
}


/// The typed record batch layout determines the batch: two batches whose
/// counts fit in memory and that encode to the same bytes hold the same
/// fields, row ids and values.
pub proof fn lemma_typed_batch_bytes_injective(left: FSERecordBatchArchiveSnapshot, right: FSERecordBatchArchiveSnapshot)
    requires
        snapshot_counts_fit(left),
        snapshot_counts_fit(right),
        typed_batch_bytes(left) == typed_batch_bytes(right),
        typed_batch_bytes(left).len() <= u64::MAX,
    ensures
        snapshot_matches(left, right),
{
    assert(typed_batch_bytes(left) + Seq::<u8>::empty() =~= typed_batch_bytes(left));
    assert(typed_batch_bytes(right) + Seq::<u8>::empty() =~= typed_batch_bytes(right));
    lemma_typed_batch_bytes_unique_with_tails(left, right, Seq::<u8>::empty(), Seq::<u8>::empty());
}

} // verus!
