//! The compact typed record batch section of a typed query index archive.
//!
//! The current layout is columnar: after the schema fields, the compact row-id
//! list and the record count, each field stores a null map and then the values
//! of its non-null records. Integers and timestamps are zig-zag variable-length
//! integers, and categories are dictionary codes whose width follows the size of
//! the field's dictionary.
use vstd::bytes::*;
use vstd::prelude::*;

use crate::bytes::{bool_byte, lemma_u64s_le_bytes, lemma_u64s_round_trip, u64_vec_bytes, u64s_le_bytes, write_bool, write_bytes, write_u16, write_u32, write_u64, write_u8};
use crate::compact::{
    compact_u64_vec_bytes, lemma_var_u64_round_trip, lemma_var_u64s_first, lemma_var_u64s_len,
    var_u64s_bytes, COMPACT_U64_VEC_RAW_MODE, COMPACT_U64_VEC_VARINT_MODE, lemma_zig_zag_round_trip, var_u64_bytes,
    write_compact_u64_vec, write_var_u64, zig_zag, zig_zag_decode_i64, zig_zag_encode_i64,
    is_var_u64_chunk, lemma_var_u64_chunk, un_zig_zag, var_u64_chunk_value, var_u64_end_from,
};
use crate::cursor::{le_u64, string_field_bytes, ByteCursor};
use crate::encoding::metadata::{FSEFieldEncoderMetadata, FSERecordEncoderMetadata};
use crate::text::str_eq;

use super::query_index_codec::{
    field_encoder_matches, field_encoders_match, lemma_starts_with_split, lift, read_text,
    starts_with, write_string, FSETypedQueryIndexArchiveCodecError,
};
use super::record_batch::{
    FSEFieldArchiveRecord, FSEFieldTypeArchiveTag, FSERecordArchiveRecord,
    FSERecordBatchArchiveSnapshot, FSEValueArchiveRecord,
};
use super::manifest_codec::lemma_string_field_unique;
use super::record_batch_codec::{decode_typed_record_batch_archive_snapshot, typed_batch_bytes};

verus! {

/// Magic bytes of the row-oriented layout that stores a value count per record.
pub const COMPACT_TYPED_BATCH_SECTION_V1_MAGIC: [u8; 8] = [0x46, 0x53, 0x45, 0x43, 0x42, 0x54, 0x30, 0x31];

/// Magic bytes of the row-oriented layout with fixed field count and raw row ids.
pub const COMPACT_TYPED_BATCH_SECTION_V2_MAGIC: [u8; 8] = [0x46, 0x53, 0x45, 0x43, 0x42, 0x54, 0x30, 0x32];

/// Magic bytes of the row-oriented layout with compact row ids.
pub const COMPACT_TYPED_BATCH_SECTION_V3_MAGIC: [u8; 8] = [0x46, 0x53, 0x45, 0x43, 0x42, 0x54, 0x30, 0x33];

/// Magic bytes of the row-oriented layout with compact row ids and signed values.
pub const COMPACT_TYPED_BATCH_SECTION_V4_MAGIC: [u8; 8] = [0x46, 0x53, 0x45, 0x43, 0x42, 0x54, 0x30, 0x34];

/// Magic bytes of the columnar layout.
pub const COMPACT_TYPED_BATCH_SECTION_V5_MAGIC: [u8; 8] = [0x46, 0x53, 0x45, 0x43, 0x42, 0x54, 0x30, 0x35];

/// Null-map mode byte: no value of the column is null.
pub const COMPACT_BATCH_NULLS_NONE_MODE: u8 = 0;

/// Null-map mode byte: a bitmap of null values follows.
pub const COMPACT_BATCH_NULLS_BITMAP_MODE: u8 = 1;

/// Magic bytes of the section layout numbered `version`.
pub open spec fn section_magic(version: u8) -> Seq<u8> {
    seq![0x46u8, 0x53u8, 0x45u8, 0x43u8, 0x42u8, 0x54u8, 0x30u8, (0x30 + version) as u8]
}

/// Tag byte of a field type in the compact layouts.
pub open spec fn compact_field_type_tag(tag: FSEFieldTypeArchiveTag) -> u8 {
    match tag {
        FSEFieldTypeArchiveTag::Integer => 0,
        FSEFieldTypeArchiveTag::Float => 1,
        FSEFieldTypeArchiveTag::Text => 2,
        FSEFieldTypeArchiveTag::Boolean => 3,
        FSEFieldTypeArchiveTag::TimestampMillis => 4,
        FSEFieldTypeArchiveTag::Category => 5,
    }
}

/// Bytes of one schema field: its name, its type tag and its nullable flag.
pub open spec fn compact_batch_field_bytes(field: FSEFieldArchiveRecord) -> Seq<u8> {
    string_field_bytes(field.name@) + seq![compact_field_type_tag(field.field_type), bool_byte(field.nullable)]
}

/// Concatenated bytes of each schema field.
pub open spec fn compact_batch_fields_bytes(fields: Seq<FSEFieldArchiveRecord>) -> Seq<u8>
    decreases fields.len(),
{
    if fields.len() == 0 {
        Seq::empty()
    } else {
        compact_batch_fields_bytes(fields.drop_last()) + compact_batch_field_bytes(fields.last())
    }
}

/// Little-endian bytes of a category code, as wide as the dictionary size needs:
/// one byte up to 256 labels, two up to 65536, four up to 2^32, else eight.
pub open spec fn category_code_bytes(category_count: nat, code: u64) -> Seq<u8> {
    if category_count <= 0x100 {
        seq![code as u8]
    } else if category_count <= 0x1_0000 {
        spec_u16_to_le_bytes(code as u16)
    } else if category_count <= 0x1_0000_0000 {
        spec_u32_to_le_bytes(code as u32)
    } else {
        spec_u64_to_le_bytes(code)
    }
}

/// Number of bytes of a category code for a dictionary of `category_count` labels.
pub open spec fn category_code_width(category_count: nat) -> nat {
    if category_count <= 0x100 {
        1
    } else if category_count <= 0x1_0000 {
        2
    } else if category_count <= 0x1_0000_0000 {
        4
    } else {
        8
    }
}

/// The category code stored at the start of `bytes` for a dictionary of
/// `category_count` labels, read as a little-endian number of its width.
pub open spec fn category_code_at(bytes: Seq<u8>, category_count: nat) -> u64 {
    if category_count <= 0x100 {
        bytes[0] as u64
    } else if category_count <= 0x1_0000 {
        spec_u16_from_le_bytes(bytes.subrange(0, 2)) as u64
    } else if category_count <= 0x1_0000_0000 {
        spec_u32_from_le_bytes(bytes.subrange(0, 4)) as u64
    } else {
        spec_u64_from_le_bytes(bytes.subrange(0, 8))
    }
}

/// What reading a category value from `bytes` (the bytes after the tag, in a
/// row-oriented layout, or the value bytes in the columnar layout) against the
/// dictionary `categories` of field `field_index` gives, when the bytes hold a
/// whole code: the label at that code, or the out-of-range error when the code
/// is at or past the dictionary's size.
pub open spec fn category_read_outcome(
    bytes: Seq<u8>,
    categories: Seq<String>,
    field_index: usize,
    legacy: bool,
    result: Result<FSEValueArchiveRecord, FSETypedQueryIndexArchiveCodecError>,
) -> bool {
    let width: nat = if legacy { 8 } else { category_code_width(categories.len()) };
    let code: u64 = if legacy { le_u64(bytes) } else { category_code_at(bytes, categories.len()) };
    bytes.len() >= width ==> {
        &&& code >= categories.len() ==> result == Err::<
            FSEValueArchiveRecord,
            FSETypedQueryIndexArchiveCodecError,
        >(
            FSETypedQueryIndexArchiveCodecError::CompactBatchCategoryCodeOutOfRange {
                field_index,
                code,
                category_count: categories.len() as usize,
            },
        )
        &&& code < categories.len() ==> result == Ok::<
            FSEValueArchiveRecord,
            FSETypedQueryIndexArchiveCodecError,
        >(FSEValueArchiveRecord::Category(categories[code as int]))
    }
}

/// Position of the first label at or after `index` that equals `label`.
pub open spec fn first_label_position(labels: Seq<String>, label: Seq<char>, index: int) -> Option<int>
    decreases labels.len() - index,
{
    if index < 0 || index >= labels.len() {
        None
    } else if labels[index]@ == label {
        Some(index)
    } else {
        first_label_position(labels, label, index + 1)
    }
}

/// Bytes of one non-null value of field `field_index` in the columnar layout, or
/// the error when the value does not fit the field.
pub open spec fn column_value_bytes(
    field_index: usize,
    value: FSEValueArchiveRecord,
    field_type: FSEFieldTypeArchiveTag,
    encoder: FSEFieldEncoderMetadata,
) -> Result<Seq<u8>, FSETypedQueryIndexArchiveCodecError> {
    match (field_type, value) {
        (FSEFieldTypeArchiveTag::Integer, FSEValueArchiveRecord::Integer(v)) => Ok(
            var_u64_bytes(zig_zag(v)),
        ),
        (FSEFieldTypeArchiveTag::Float, FSEValueArchiveRecord::Float(bits)) => Ok(
            spec_u64_to_le_bytes(bits),
        ),
        (FSEFieldTypeArchiveTag::Text, FSEValueArchiveRecord::Text(text)) => Ok(
            string_field_bytes(text@),
        ),
        (FSEFieldTypeArchiveTag::Boolean, FSEValueArchiveRecord::Boolean(flag)) => Ok(
            seq![bool_byte(flag)],
        ),
        (
            FSEFieldTypeArchiveTag::TimestampMillis,
            FSEValueArchiveRecord::TimestampMillis(v),
        ) => Ok(var_u64_bytes(zig_zag(v))),
        (FSEFieldTypeArchiveTag::Category, FSEValueArchiveRecord::Category(label)) => match encoder {
            FSEFieldEncoderMetadata::CategoryDictionary { categories } => match first_label_position(
                categories@,
                label@,
                0,
            ) {
                Some(position) => Ok(category_code_bytes(categories@.len(), position as u64)),
                None => Err(
                    FSETypedQueryIndexArchiveCodecError::CompactBatchCategoryNotInEncoderMetadata {
                        field_index,
                        category: label,
                    },
                ),
            },
            _ => Err(
                FSETypedQueryIndexArchiveCodecError::CompactBatchCategoryEncoderMismatch {
                    field_index,
                },
            ),
        },
        _ => Err(
            FSETypedQueryIndexArchiveCodecError::CompactBatchColumnValueTypeMismatch { field_index },
        ),
    }
}

/// Whether each record holds a null value in field `field_index`.
pub open spec fn null_flags(records: Seq<FSERecordArchiveRecord>, field_index: int) -> Seq<bool> {
    Seq::new(records.len(), |i: int| records[i].values@[field_index] is Null)
}

/// The null bits of byte `byte_index` of a bitmap, taking the first `count` bit
/// positions into account: bit `k` is set when flag `8 * byte_index + k` is set.
pub open spec fn bitmap_byte_bits(flags: Seq<bool>, byte_index: int, count: nat) -> u8
    decreases count,
{
    if count == 0 {
        0
    } else {
        let position = 8 * byte_index + count - 1;
        bitmap_byte_bits(flags, byte_index, (count - 1) as nat) | (if 0 <= position < flags.len()
            && flags[position] {
            (1u8 << ((count - 1) as u8))
        } else {
            0u8
        })
    }
}

/// Bitmap with one bit per flag, least significant bit first.
pub open spec fn null_bitmap_bytes(flags: Seq<bool>) -> Seq<u8> {
    Seq::new(((flags.len() + 7) / 8) as nat, |byte_index: int| bitmap_byte_bits(flags, byte_index, 8))
}

/// The bytes a read took: what lay before it, less what lies after it.
pub open spec fn taken(before: Seq<u8>, after: Seq<u8>) -> Seq<u8> {
    before.subrange(0, before.len() - after.len())
}

/// A read took bytes from the front of `before` and left `after`.
pub open spec fn read_from_front(before: Seq<u8>, after: Seq<u8>) -> bool {
    after.len() <= before.len() && before == taken(before, after) + after
}

/// The bytes are a signed value in zig-zag variable-length form, as a reader
/// takes it.
pub open spec fn zig_zag_chunk_read(chunk: Seq<u8>, value: i64) -> bool {
    is_var_u64_chunk(chunk) && value == un_zig_zag(var_u64_chunk_value(chunk))
}

/// The pieces, one after another.
pub open spec fn joined(pieces: Seq<Seq<u8>>) -> Seq<u8>
    decreases pieces.len(),
{
    if pieces.len() == 0 {
        Seq::empty()
    } else {
        joined(pieces.drop_last()) + pieces.last()
    }
}

pub(crate) proof fn lemma_joined_push(pieces: Seq<Seq<u8>>, piece: Seq<u8>)
    ensures
        joined(pieces.push(piece)) == joined(pieces) + piece,
{
    assert(pieces.push(piece).drop_last() =~= pieces);
}

/// The bytes are the values, one variable-length chunk after another, as a
/// reader takes them.
#[verifier::opaque]
pub open spec fn var_u64s_read(chunk: Seq<u8>, values: Seq<u64>) -> bool {
    exists|pieces: Seq<Seq<u8>>|
        #![trigger joined(pieces)]
        {
            &&& pieces.len() == values.len()
            &&& chunk == joined(pieces)
            &&& forall|i: int|
                0 <= i < pieces.len() ==> is_var_u64_chunk(#[trigger] pieces[i]) && var_u64_chunk_value(
                    pieces[i],
                ) == values[i]
        }
}

/// The bytes are a compact `u64` list holding `values` in either layout, as a
/// reader takes it.
#[verifier::opaque]
pub open spec fn compact_u64_vec_read(chunk: Seq<u8>, values: Seq<u64>) -> bool {
    ||| chunk == seq![COMPACT_U64_VEC_RAW_MODE] + u64_vec_bytes(values)
    ||| {
        &&& chunk.len() >= 9
        &&& chunk[0] == COMPACT_U64_VEC_VARINT_MODE
        &&& chunk.subrange(1, 9) == spec_u64_to_le_bytes(values.len() as u64)
        &&& var_u64s_read(chunk.subrange(9, chunk.len() as int), values)
    }
}

/// The bytes are a null map giving `flags`, as a reader takes it: the none mode
/// with no flag set, or the bitmap mode with a bit per flag.
#[verifier::opaque]
pub open spec fn nulls_read(chunk: Seq<u8>, flags: Seq<bool>) -> bool {
    ||| chunk == seq![COMPACT_BATCH_NULLS_NONE_MODE] && forall|i: int| 0 <= i < flags.len() ==> !#[trigger] flags[i]
    ||| {
        &&& chunk.len() == 1 + (flags.len() + 7) / 8
        &&& chunk[0] == COMPACT_BATCH_NULLS_BITMAP_MODE
        &&& forall|i: int|
            0 <= i < flags.len() ==> #[trigger] flags[i] == (chunk[1 + i / 8] & (1u8 << ((i % 8) as u8))
                != 0)
    }
}

/// The bytes are one non-null value of field `field_index` in the columnar
/// layout, as a reader takes it against the field's encoder.
#[verifier::opaque]
pub open spec fn column_value_read(
    chunk: Seq<u8>,
    field_type: FSEFieldTypeArchiveTag,
    encoders: Seq<FSEFieldEncoderMetadata>,
    field_index: int,
    value: FSEValueArchiveRecord,
) -> bool {
    match field_type {
        FSEFieldTypeArchiveTag::Integer => (value matches FSEValueArchiveRecord::Integer(v)
            && zig_zag_chunk_read(chunk, v)),
        FSEFieldTypeArchiveTag::Float => (value matches FSEValueArchiveRecord::Float(bits) && chunk
            == spec_u64_to_le_bytes(bits)),
        FSEFieldTypeArchiveTag::Text => (value matches FSEValueArchiveRecord::Text(text) && chunk
            == string_field_bytes(text@)),
        FSEFieldTypeArchiveTag::Boolean => (value matches FSEValueArchiveRecord::Boolean(flag)
            && chunk == seq![bool_byte(flag)]),
        FSEFieldTypeArchiveTag::TimestampMillis => (value matches FSEValueArchiveRecord::TimestampMillis(
            v,
        ) && zig_zag_chunk_read(chunk, v)),
        FSEFieldTypeArchiveTag::Category => {
            &&& 0 <= field_index < encoders.len()
            &&& encoders[field_index] matches FSEFieldEncoderMetadata::CategoryDictionary { categories }
            &&& chunk.len() == category_code_width(categories@.len())
            &&& category_code_at(chunk, categories@.len()) < categories@.len()
            &&& value matches FSEValueArchiveRecord::Category(label)
            &&& label@ == categories@[category_code_at(chunk, categories@.len()) as int]@
        },
    }
}

/// Which values of a column are null.
pub open spec fn column_null_flags(column: Seq<FSEValueArchiveRecord>) -> Seq<bool> {
    Seq::new(column.len(), |i: int| column[i] is Null)
}

/// The bytes are the non-null values of a column, one after another, as a
/// reader takes them: a null value takes no bytes.
#[verifier::opaque]
pub open spec fn column_values_read(
    chunk: Seq<u8>,
    field_type: FSEFieldTypeArchiveTag,
    encoders: Seq<FSEFieldEncoderMetadata>,
    field_index: int,
    column: Seq<FSEValueArchiveRecord>,
) -> bool {
    exists|pieces: Seq<Seq<u8>>|
        #![trigger joined(pieces)]
        {
            &&& pieces.len() == column.len()
            &&& chunk == joined(pieces)
            &&& forall|i: int|
                0 <= i < pieces.len() ==> if column[i] is Null {
                    (#[trigger] pieces[i]).len() == 0
                } else {
                    column_value_read(pieces[i], field_type, encoders, field_index, column[i])
                }
        }
}

/// The bytes are a column, as a reader takes it: its null map, then its
/// non-null values.
#[verifier::opaque]
pub open spec fn column_read(
    chunk: Seq<u8>,
    field_type: FSEFieldTypeArchiveTag,
    encoders: Seq<FSEFieldEncoderMetadata>,
    field_index: int,
    column: Seq<FSEValueArchiveRecord>,
) -> bool {
    exists|nulls: Seq<u8>, values: Seq<u8>|
        #![trigger nulls_read(nulls, column_null_flags(column)), column_values_read(values, field_type, encoders, field_index, column)]
        {
            &&& chunk == nulls + values
            &&& nulls_read(nulls, column_null_flags(column))
            &&& column_values_read(values, field_type, encoders, field_index, column)
        }
}

/// The bytes are the columns, one after another, as a reader takes them.
#[verifier::opaque]
pub open spec fn columns_read(
    chunk: Seq<u8>,
    fields: Seq<FSEFieldArchiveRecord>,
    encoders: Seq<FSEFieldEncoderMetadata>,
    columns: Seq<Seq<FSEValueArchiveRecord>>,
) -> bool {
    exists|pieces: Seq<Seq<u8>>|
        #![trigger joined(pieces)]
        {
            &&& pieces.len() == columns.len()
            &&& columns.len() <= fields.len()
            &&& chunk == joined(pieces)
            &&& forall|f: int|
                0 <= f < pieces.len() ==> column_read(
                    #[trigger] pieces[f],
                    fields[f].field_type,
                    encoders,
                    f,
                    columns[f],
                )
        }
}

/// The columns of a batch: column `f` holds field `f` of each record.
pub open spec fn batch_columns(snapshot: FSERecordBatchArchiveSnapshot) -> Seq<Seq<FSEValueArchiveRecord>> {
    Seq::new(
        snapshot.schema_fields@.len(),
        |f: int| Seq::new(snapshot.records@.len(), |r: int| snapshot.records@[r].values@[f]),
    )
}

/// The bytes are a columnar section that a reader takes as `snapshot`: eight
/// leading bytes, the field count and fields, the row ids as a compact list in
/// either layout, the record count, then each column with its null map in
/// either mode and its values as the field's encoder reads them.
#[verifier::opaque]
pub open spec fn columnar_section_read(
    bytes: Seq<u8>,
    encoders: Seq<FSEFieldEncoderMetadata>,
    snapshot: FSERecordBatchArchiveSnapshot,
) -> bool {
    let fields = snapshot.schema_fields@;
    &&& records_have_field_count(snapshot)
    &&& fields.len() == encoders.len()
    &&& exists|rows: Seq<u8>, columns: Seq<u8>|
        #![trigger compact_u64_vec_read(rows, snapshot.row_ids@), columns_read(columns, fields, encoders, batch_columns(snapshot))]
        {
            &&& bytes.len() >= 8
            &&& bytes.subrange(8, bytes.len() as int) == spec_u64_to_le_bytes(fields.len() as u64)
                + compact_batch_fields_bytes(fields) + rows + spec_u64_to_le_bytes(
                snapshot.records@.len() as u64,
            ) + columns
            &&& compact_u64_vec_read(rows, snapshot.row_ids@)
            &&& columns_read(columns, fields, encoders, batch_columns(snapshot))
        }
}

/// Bytes of a column's null map: the none mode when no flag is set, else the
/// bitmap mode followed by the bitmap.
pub open spec fn nulls_bytes(flags: Seq<bool>) -> Seq<u8> {
    if flags.contains(true) {
        seq![COMPACT_BATCH_NULLS_BITMAP_MODE] + null_bitmap_bytes(flags)
    } else {
        seq![COMPACT_BATCH_NULLS_NONE_MODE]
    }
}


/// Position of the first record at or after `index` that holds no value for
/// field `field_index`.
pub open spec fn first_short_record(records: Seq<FSERecordArchiveRecord>, field_index: int, index: int) -> Option<
    int,
>
    decreases records.len() - index,
{
    if index < 0 || index >= records.len() {
        None
    } else if records[index].values@.len() <= field_index {
        Some(index)
    } else {
        first_short_record(records, field_index, index + 1)
    }
}

/// Bytes of the non-null values of field `field_index` in the first `count`
/// records, or the error of the first value that does not fit the field.
pub open spec fn column_values_bytes(
    records: Seq<FSERecordArchiveRecord>,
    field_index: usize,
    field_type: FSEFieldTypeArchiveTag,
    encoder: FSEFieldEncoderMetadata,
    count: nat,
) -> Result<Seq<u8>, FSETypedQueryIndexArchiveCodecError>
    decreases count,
{
    if count == 0 {
        Ok(Seq::empty())
    } else {
        match column_values_bytes(records, field_index, field_type, encoder, (count - 1) as nat) {
            Err(error) => Err(error),
            Ok(prefix) => {
                let value = records[count - 1].values@[field_index as int];
                if value is Null {
                    Ok(prefix)
                } else {
                    match column_value_bytes(field_index, value, field_type, encoder) {
                        Ok(bytes) => Ok(prefix + bytes),
                        Err(error) => Err(error),
                    }
                }
            },
        }
    }
}

/// Bytes of the column of field `field_index`: its null map, then its non-null values.
pub open spec fn column_bytes(
    snapshot: FSERecordBatchArchiveSnapshot,
    encoders: Seq<FSEFieldEncoderMetadata>,
    field_index: usize,
) -> Result<Seq<u8>, FSETypedQueryIndexArchiveCodecError> {
    let records = snapshot.records@;
    match first_short_record(records, field_index as int, 0) {
        Some(short) => Err(
            FSETypedQueryIndexArchiveCodecError::CompactBatchEncoderFieldCountMismatch {
                schema_field_count: records[short].values@.len() as usize,
                encoder_field_count: snapshot.schema_fields@.len() as usize,
            },
        ),
        None => match column_values_bytes(
            records,
            field_index,
            snapshot.schema_fields@[field_index as int].field_type,
            encoders[field_index as int],
            records.len(),
        ) {
            Ok(values) => Ok(nulls_bytes(null_flags(records, field_index as int)) + values),
            Err(error) => Err(error),
        },
    }
}

/// Bytes of the first `count` columns, or the error of the first column that fails.
pub open spec fn columns_bytes(
    snapshot: FSERecordBatchArchiveSnapshot,
    encoders: Seq<FSEFieldEncoderMetadata>,
    count: nat,
) -> Result<Seq<u8>, FSETypedQueryIndexArchiveCodecError>
    decreases count,
{
    if count == 0 {
        Ok(Seq::empty())
    } else {
        match columns_bytes(snapshot, encoders, (count - 1) as nat) {
            Err(error) => Err(error),
            Ok(prefix) => match column_bytes(snapshot, encoders, (count - 1) as usize) {
                Ok(column) => Ok(prefix + column),
                Err(error) => Err(error),
            },
        }
    }
}

/// Bytes of a columnar typed record batch section, or the error that stops
/// encoding: the magic, the field count and fields, the compact row-id list,
/// the record count, then each column.
pub open spec fn batch_section_bytes(
    snapshot: FSERecordBatchArchiveSnapshot,
    encoders: Seq<FSEFieldEncoderMetadata>,
) -> Result<Seq<u8>, FSETypedQueryIndexArchiveCodecError> {
    let fields = snapshot.schema_fields@;
    if fields.len() != encoders.len() {
        Err(
            FSETypedQueryIndexArchiveCodecError::CompactBatchEncoderFieldCountMismatch {
                schema_field_count: fields.len() as usize,
                encoder_field_count: encoders.len() as usize,
            },
        )
    } else {
        match columns_bytes(snapshot, encoders, fields.len()) {
            Err(error) => Err(error),
            Ok(columns) => Ok(
                section_magic(5) + spec_u64_to_le_bytes(fields.len() as u64)
                    + compact_batch_fields_bytes(fields) + compact_u64_vec_bytes(snapshot.row_ids@)
                    + spec_u64_to_le_bytes(snapshot.records@.len() as u64) + columns,
            ),
        }
    }
}

/// Appends the compact tag byte of a field type.
pub fn write_compact_batch_field_type_tag(out: &mut Vec<u8>, tag: FSEFieldTypeArchiveTag)
    ensures
        final(out)@ == old(out)@.push(compact_field_type_tag(tag)),
{
    out.push(
        match tag {
            FSEFieldTypeArchiveTag::Integer => 0u8,
            FSEFieldTypeArchiveTag::Float => 1u8,
            FSEFieldTypeArchiveTag::Text => 2u8,
            FSEFieldTypeArchiveTag::Boolean => 3u8,
            FSEFieldTypeArchiveTag::TimestampMillis => 4u8,
            FSEFieldTypeArchiveTag::Category => 5u8,
        },
    );
}

/// Appends one schema field.
pub fn write_compact_batch_field(out: &mut Vec<u8>, field: &FSEFieldArchiveRecord)
    ensures
        final(out)@ == old(out)@ + compact_batch_field_bytes(*field),
{
    write_string(out, field.name.as_str());
    write_compact_batch_field_type_tag(out, field.field_type);
    write_bool(out, field.nullable);
    assert(out@ =~= old(out)@ + compact_batch_field_bytes(*field));
}

/// Appends a category code in the width that the dictionary size calls for.
pub fn write_compact_category_code(out: &mut Vec<u8>, category_count: usize, code: u64)
    ensures
        final(out)@ == old(out)@ + category_code_bytes(category_count as nat, code),
{
    if category_count as u64 <= 0x100 {
        write_u8(out, code as u8);
        assert(out@ =~= old(out)@ + category_code_bytes(category_count as nat, code));
    } else if category_count as u64 <= 0x1_0000 {
        write_u16(out, code as u16);
    } else if category_count as u64 <= 0x1_0000_0000 {
        write_u32(out, code as u32);
    } else {
        write_u64(out, code);
    }
}

/// Appends a signed value as the variable-length encoding of its zig-zag image.
pub fn write_compact_i64(out: &mut Vec<u8>, value: i64)
    ensures
        final(out)@ == old(out)@ + var_u64_bytes(zig_zag(value)),
{
    write_var_u64(out, zig_zag_encode_i64(value));
}

proof fn lemma_first_label_position_range(labels: Seq<String>, label: Seq<char>, index: int)
    ensures
        first_label_position(labels, label, index) matches Some(position) ==> index <= position
            < labels.len() && labels[position]@ == label,
    decreases labels.len() - index,
{
    if 0 <= index < labels.len() && labels[index]@ != label {
        lemma_first_label_position_range(labels, label, index + 1);
    }
}

/// Returns the position of the first label equal to `label`.
fn category_position(categories: &Vec<String>, label: &String) -> (position: Option<usize>)
    ensures
        match first_label_position(categories@, label@, 0) {
            Some(index) => (position matches Some(found) && found as int == index) && index
                < categories@.len() && categories@[index]@ == label@,
            None => position is None,
        },
{
    proof {
        lemma_first_label_position_range(categories@, label@, 0);
    }
    let mut index: usize = 0;
    while index < categories.len()
        invariant
            index <= categories@.len(),
            first_label_position(categories@, label@, 0) == first_label_position(
                categories@,
                label@,
                index as int,
            ),
        decreases categories@.len() - index,
    {
        if str_eq(categories[index].as_str(), label.as_str()) {
            return Some(index);
        }
        index = index + 1;
    }
    None
}

/// Appends one non-null value of field `field_index` in the columnar layout.
pub fn write_compact_batch_column_value(
    out: &mut Vec<u8>,
    field_index: usize,
    value: &FSEValueArchiveRecord,
    schema_field: &FSEFieldArchiveRecord,
    field_encoder: &FSEFieldEncoderMetadata,
) -> (result: Result<(), FSETypedQueryIndexArchiveCodecError>)
    ensures
        match column_value_bytes(field_index, *value, schema_field.field_type, *field_encoder) {
            Ok(bytes) => result is Ok && final(out)@ == old(out)@ + bytes,
            Err(error) => result == Err::<(), FSETypedQueryIndexArchiveCodecError>(error)
                && final(out)@ == old(out)@,
        },
{
    match (schema_field.field_type, value) {
        (FSEFieldTypeArchiveTag::Integer, FSEValueArchiveRecord::Integer(v)) => {
            write_compact_i64(out, *v);
        },
        (FSEFieldTypeArchiveTag::Float, FSEValueArchiveRecord::Float(bits)) => {
            write_u64(out, *bits);
        },
        (FSEFieldTypeArchiveTag::Text, FSEValueArchiveRecord::Text(text)) => {
            write_string(out, text.as_str());
        },
        (FSEFieldTypeArchiveTag::Boolean, FSEValueArchiveRecord::Boolean(flag)) => {
            write_bool(out, *flag);
            assert(out@ =~= old(out)@ + seq![bool_byte(*flag)]);
        },
        (
            FSEFieldTypeArchiveTag::TimestampMillis,
            FSEValueArchiveRecord::TimestampMillis(v),
        ) => {
            write_compact_i64(out, *v);
        },
        (FSEFieldTypeArchiveTag::Category, FSEValueArchiveRecord::Category(label)) => {
            match field_encoder {
                FSEFieldEncoderMetadata::CategoryDictionary { categories } => {
                    let code = match category_position(categories, label) {
                        Some(code) => code,
                        None => {
                            return Err(
                                FSETypedQueryIndexArchiveCodecError::CompactBatchCategoryNotInEncoderMetadata {
                                    field_index,
                                    category: label.clone(),
                                },
                            );
                        },
                    };
                    write_compact_category_code(out, categories.len(), code as u64);
                },
                _ => {
                    return Err(
                        FSETypedQueryIndexArchiveCodecError::CompactBatchCategoryEncoderMismatch {
                            field_index,
                        },
                    );
                },
            }
        },
        _ => {
            return Err(
                FSETypedQueryIndexArchiveCodecError::CompactBatchColumnValueTypeMismatch {
                    field_index,
                },
            );
        },
    }
    Ok(())
}


proof fn lemma_u8_or_facts(a: u8, b: u8, c: u8)
    ensures
        (a | 0u8) == a,
        ((a | b) | c) == ((a | c) | b),
        (0u8 | 0u8) == 0u8,
{
    assert((a | 0u8) == a) by (bit_vector);
    assert(((a | b) | c) == ((a | c) | b)) by (bit_vector);
    assert((0u8 | 0u8) == 0u8) by (bit_vector);
}

proof fn lemma_bitmap_byte_push(flags: Seq<bool>, flag: bool, byte_index: int, count: nat)
    requires
        0 <= byte_index,
        count <= 8,
    ensures
        bitmap_byte_bits(flags.push(flag), byte_index, count) == (bitmap_byte_bits(
            flags,
            byte_index,
            count,
        ) | (if flag && byte_index == flags.len() / 8 && flags.len() % 8 < count {
            (1u8 << ((flags.len() % 8) as u8))
        } else {
            0u8
        })),
    decreases count,
{
    let longer = flags.push(flag);
    let i = flags.len() as int;
    if count == 0 {
        lemma_u8_or_facts(0, 0, 0);
    } else {
        lemma_bitmap_byte_push(flags, flag, byte_index, (count - 1) as nat);
        let position = 8 * byte_index + count - 1;
        let old_prefix = bitmap_byte_bits(flags, byte_index, (count - 1) as nat);
        let new_prefix = bitmap_byte_bits(longer, byte_index, (count - 1) as nat);
        let bit = (1u8 << ((count - 1) as u8));
        let old_term = if 0 <= position < flags.len() && flags[position] {
            bit
        } else {
            0u8
        };
        let new_term = if 0 <= position < longer.len() && longer[position] {
            bit
        } else {
            0u8
        };
        let mark = if flag && byte_index == i / 8 && i % 8 < count {
            (1u8 << ((i % 8) as u8))
        } else {
            0u8
        };
        let previous_mark = if flag && byte_index == i / 8 && i % 8 < count - 1 {
            (1u8 << ((i % 8) as u8))
        } else {
            0u8
        };
        if position < i {
            assert(longer[position] == flags[position]);
            assert(old_term == new_term);
            assert(mark == previous_mark);
            lemma_u8_or_facts(old_prefix, previous_mark, new_term);
        } else if position == i {
            assert(old_term == 0u8);
            assert(i % 8 == count - 1);
            assert(byte_index == i / 8);
            assert(previous_mark == 0u8);
            assert(new_term == mark);
            lemma_u8_or_facts(old_prefix, 0u8, mark);
            lemma_u8_or_facts(old_prefix, mark, 0u8);
        } else {
            assert(old_term == 0u8);
            assert(new_term == 0u8);
            assert(mark == previous_mark);
            lemma_u8_or_facts(old_prefix, previous_mark, 0u8);
            lemma_u8_or_facts(old_prefix | previous_mark, 0u8, 0u8);
        }
    }
}

/// Appends the null map of field `field_index`.
pub fn write_compact_batch_nulls(
    out: &mut Vec<u8>,
    snapshot: &FSERecordBatchArchiveSnapshot,
    field_index: usize,
) -> (result: Result<(), FSETypedQueryIndexArchiveCodecError>)
    ensures
        match first_short_record(snapshot.records@, field_index as int, 0) {
            Some(short) => result == Err::<(), FSETypedQueryIndexArchiveCodecError>(
                FSETypedQueryIndexArchiveCodecError::CompactBatchEncoderFieldCountMismatch {
                    schema_field_count: snapshot.records@[short].values@.len() as usize,
                    encoder_field_count: snapshot.schema_fields@.len() as usize,
                },
            ) && final(out)@ == old(out)@,
            None => result is Ok && final(out)@ == old(out)@ + nulls_bytes(
                null_flags(snapshot.records@, field_index as int),
            ),
        },
{
    let records = &snapshot.records;
    let record_count = records.len();
    let byte_count: usize = record_count / 8 + if record_count % 8 != 0 {
        1
    } else {
        0
    };
    let ghost flags = null_flags(records@, field_index as int);
    let mut bitmap: Vec<u8> = Vec::new();
    let mut fill: usize = 0;
    while fill < byte_count
        invariant
            fill <= byte_count,
            bitmap@.len() == fill,
            forall|j: int| 0 <= j < fill ==> bitmap@[j] == 0u8,
        decreases byte_count - fill,
    {
        bitmap.push(0u8);
        fill = fill + 1;
    }
    let mut has_null = false;
    let mut index: usize = 0;
    proof {
        assert forall|j: int| 0 <= j < byte_count implies bitmap@[j] == bitmap_byte_bits(
            flags.subrange(0, 0),
            j,
            8,
        ) by {
            reveal_with_fuel(bitmap_byte_bits, 9);
            lemma_u8_or_facts(0, 0, 0);
        }
        assert(!flags.subrange(0, 0).contains(true));
    }
    while index < record_count
        invariant
            records@ == snapshot.records@,
            record_count == records@.len(),
            flags == null_flags(records@, field_index as int),
            byte_count == (record_count + 7) / 8,
            index <= record_count,
            bitmap@.len() == byte_count,
            forall|j: int|
                0 <= j < byte_count ==> bitmap@[j] == bitmap_byte_bits(
                    flags.subrange(0, index as int),
                    j,
                    8,
                ),
            has_null == flags.subrange(0, index as int).contains(true),
            first_short_record(records@, field_index as int, 0) == first_short_record(
                records@,
                field_index as int,
                index as int,
            ),
        decreases record_count - index,
    {
        let record = &records[index];
        if record.values.len() <= field_index {
            return Err(
                FSETypedQueryIndexArchiveCodecError::CompactBatchEncoderFieldCountMismatch {
                    schema_field_count: record.values.len(),
                    encoder_field_count: snapshot.schema_fields.len(),
                },
            );
        }
        let ghost prefix = flags.subrange(0, index as int);
        let is_null = match &record.values[field_index] {
            FSEValueArchiveRecord::Null => true,
            _ => false,
        };
        assert(is_null == flags[index as int]);
        proof {
            assert(flags.subrange(0, index + 1) =~= prefix.push(flags[index as int]));
            assert forall|j: int| 0 <= j < byte_count implies bitmap_byte_bits(
                flags.subrange(0, index + 1),
                j,
                8,
            ) == (bitmap_byte_bits(prefix, j, 8) | (if is_null && j == index / 8 {
                (1u8 << ((index % 8) as u8))
            } else {
                0u8
            })) by {
                lemma_bitmap_byte_push(prefix, flags[index as int], j, 8);
            }
            assert(flags.subrange(0, index + 1).contains(true) == (prefix.contains(true)
                || is_null)) by {
                if is_null {
                    assert(flags.subrange(0, index + 1)[index as int] == true);
                }
                if prefix.contains(true) {
                    let k = choose|k: int| 0 <= k < prefix.len() && prefix[k] == true;
                    assert(flags.subrange(0, index + 1)[k] == true);
                }
            }
        }
        if is_null {
            has_null = true;
            let byte_index = index / 8;
            let bit: u8 = 1u8 << ((index % 8) as u8);
            let updated = bitmap[byte_index] | bit;
            bitmap.set(byte_index, updated);
            proof {
                assert forall|j: int| 0 <= j < byte_count && j != byte_index implies (
                bitmap_byte_bits(prefix, j, 8) | 0u8) == bitmap_byte_bits(prefix, j, 8) by {
                    lemma_u8_or_facts(bitmap_byte_bits(prefix, j, 8), 0u8, 0u8);
                }
            }
        } else {
            proof {
                assert forall|j: int| 0 <= j < byte_count implies (bitmap_byte_bits(prefix, j, 8)
                    | 0u8) == bitmap_byte_bits(prefix, j, 8) by {
                    lemma_u8_or_facts(bitmap_byte_bits(prefix, j, 8), 0u8, 0u8);
                }
            }
        }
        index = index + 1;
    }
    proof {
        assert(flags.subrange(0, record_count as int) =~= flags);
        assert(bitmap@ =~= null_bitmap_bytes(flags));
    }
    if has_null {
        write_u8(out, COMPACT_BATCH_NULLS_BITMAP_MODE);
        write_bytes(out, bitmap.as_slice());
    } else {
        write_u8(out, COMPACT_BATCH_NULLS_NONE_MODE);
    }
    assert(out@ =~= old(out)@ + nulls_bytes(flags));
    Ok(())
}


proof fn lemma_column_values_error_persists(
    records: Seq<FSERecordArchiveRecord>,
    field_index: usize,
    field_type: FSEFieldTypeArchiveTag,
    encoder: FSEFieldEncoderMetadata,
    count: nat,
    later: nat,
)
    requires
        count <= later,
        column_values_bytes(records, field_index, field_type, encoder, count) is Err,
    ensures
        column_values_bytes(records, field_index, field_type, encoder, later) == column_values_bytes(
            records,
            field_index,
            field_type,
            encoder,
            count,
        ),
    decreases later - count,
{
    if count < later {
        lemma_column_values_error_persists(
            records,
            field_index,
            field_type,
            encoder,
            count,
            (later - 1) as nat,
        );
    }
}

proof fn lemma_columns_error_persists(
    snapshot: FSERecordBatchArchiveSnapshot,
    encoders: Seq<FSEFieldEncoderMetadata>,
    count: nat,
    later: nat,
)
    requires
        count <= later,
        columns_bytes(snapshot, encoders, count) is Err,
    ensures
        columns_bytes(snapshot, encoders, later) == columns_bytes(snapshot, encoders, count),
    decreases later - count,
{
    if count < later {
        lemma_columns_error_persists(snapshot, encoders, count, (later - 1) as nat);
    }
}

/// Appends every column of the snapshot: its null map, then its non-null values.
pub fn write_compact_batch_columns(
    out: &mut Vec<u8>,
    snapshot: &FSERecordBatchArchiveSnapshot,
    fields: &[FSEFieldEncoderMetadata],
) -> (result: Result<(), FSETypedQueryIndexArchiveCodecError>)
    requires
        fields@.len() == snapshot.schema_fields@.len(),
    ensures
        match columns_bytes(*snapshot, fields@, snapshot.schema_fields@.len()) {
            Ok(bytes) => result is Ok && final(out)@ == old(out)@ + bytes,
            Err(error) => result == Err::<(), FSETypedQueryIndexArchiveCodecError>(error),
        },
{
    let field_count = snapshot.schema_fields.len();
    let mut field_index: usize = 0;
    while field_index < field_count
        invariant
            field_count == snapshot.schema_fields@.len(),
            fields@.len() == field_count,
            field_index <= field_count,
            columns_bytes(*snapshot, fields@, field_index as nat) matches Ok(prefix) && out@
                == old(out)@ + prefix,
        decreases field_count - field_index,
    {
        let ghost column_start = out@;
        match write_compact_batch_nulls(out, snapshot, field_index) {
            Ok(()) => {},
            Err(error) => {
                proof {
                    lemma_columns_error_persists(
                        *snapshot,
                        fields@,
                        (field_index + 1) as nat,
                        field_count as nat,
                    );
                }
                return Err(error);
            },
        }
        let ghost records = snapshot.records@;
        let ghost field_type = snapshot.schema_fields@[field_index as int].field_type;
        let ghost encoder = fields@[field_index as int];
        let ghost nulls = nulls_bytes(null_flags(records, field_index as int));
        let mut record_index: usize = 0;
        while record_index < snapshot.records.len()
            invariant
                records == snapshot.records@,
                field_count == snapshot.schema_fields@.len(),
                fields@.len() == field_count,
                field_index < field_count,
                field_type == snapshot.schema_fields@[field_index as int].field_type,
                encoder == fields@[field_index as int],
                first_short_record(records, field_index as int, 0) is None,
                columns_bytes(*snapshot, fields@, field_index as nat) matches Ok(prefix)
                    && column_start == old(out)@ + prefix,
                nulls == nulls_bytes(null_flags(records, field_index as int)),
                record_index <= records.len(),
                column_values_bytes(records, field_index, field_type, encoder, record_index as nat) matches Ok(
                    values,
                ) && out@ == column_start + nulls + values,
            decreases records.len() - record_index,
        {
            let record = &snapshot.records[record_index];
            proof {
                lemma_no_short_record(records, field_index as int, 0, record_index as int);
            }
            let value = &record.values[field_index];
            let is_null = match value {
                FSEValueArchiveRecord::Null => true,
                _ => false,
            };
            if !is_null {
                let ghost before = out@;
                match write_compact_batch_column_value(
                    out,
                    field_index,
                    value,
                    &snapshot.schema_fields[field_index],
                    &fields[field_index],
                ) {
                    Ok(()) => {},
                    Err(error) => {
                        proof {
                            lemma_column_values_error_persists(
                                records,
                                field_index,
                                field_type,
                                encoder,
                                (record_index + 1) as nat,
                                records.len(),
                            );
                            lemma_columns_error_persists(
                                *snapshot,
                                fields@,
                                (field_index + 1) as nat,
                                field_count as nat,
                            );
                        }
                        return Err(error);
                    },
                }
                proof {
                    let previous = column_values_bytes(
                        records,
                        field_index,
                        field_type,
                        encoder,
                        record_index as nat,
                    )->Ok_0;
                    assert(out@ =~= column_start + nulls + column_values_bytes(
                        records,
                        field_index,
                        field_type,
                        encoder,
                        (record_index + 1) as nat,
                    )->Ok_0);
                }
            }
            record_index = record_index + 1;
        }
        proof {
            let prefix = columns_bytes(*snapshot, fields@, field_index as nat)->Ok_0;
            let column = column_bytes(*snapshot, fields@, field_index);
            assert(column == Ok::<Seq<u8>, FSETypedQueryIndexArchiveCodecError>(
                nulls + column_values_bytes(records, field_index, field_type, encoder, records.len())->Ok_0,
            ));
            assert(out@ =~= old(out)@ + columns_bytes(*snapshot, fields@, (field_index + 1) as nat)->Ok_0);
        }
        field_index = field_index + 1;
    }
    Ok(())
}

proof fn lemma_no_short_record(records: Seq<FSERecordArchiveRecord>, field_index: int, start: int, index: int)
    requires
        0 <= start <= index < records.len(),
        first_short_record(records, field_index, start) is None,
    ensures
        records[index].values@.len() > field_index,
    decreases index - start,
{
    if start < index {
        lemma_no_short_record(records, field_index, start + 1, index);
    }
}


/// Appends each schema field.
pub fn write_compact_batch_fields(out: &mut Vec<u8>, fields: &[FSEFieldArchiveRecord])
    ensures
        final(out)@ == old(out)@ + compact_batch_fields_bytes(fields@),
{
    let mut index: usize = 0;
    while index < fields.len()
        invariant
            index <= fields@.len(),
            out@ == old(out)@ + compact_batch_fields_bytes(fields@.subrange(0, index as int)),
        decreases fields@.len() - index,
    {
        write_compact_batch_field(out, &fields[index]);
        proof {
            let next = fields@.subrange(0, index + 1);
            assert(next.drop_last() =~= fields@.subrange(0, index as int));
            assert(out@ =~= old(out)@ + compact_batch_fields_bytes(next));
        }
        index = index + 1;
    }
    assert(fields@.subrange(0, fields@.len() as int) =~= fields@);
}

/// Checks that the batch has one schema field per field encoder.
pub fn validate_compact_batch_encoder_field_count(
    snapshot: &FSERecordBatchArchiveSnapshot,
    record_encoder: &FSERecordEncoderMetadata,
) -> (result: Result<(), FSETypedQueryIndexArchiveCodecError>)
    ensures
        snapshot.schema_fields@.len() == record_encoder@.len() ==> result is Ok,
        snapshot.schema_fields@.len() != record_encoder@.len() ==> result == Err::<
            (),
            FSETypedQueryIndexArchiveCodecError,
        >(
            FSETypedQueryIndexArchiveCodecError::CompactBatchEncoderFieldCountMismatch {
                schema_field_count: snapshot.schema_fields@.len() as usize,
                encoder_field_count: record_encoder@.len() as usize,
            },
        ),
{
    let encoder_field_count = record_encoder.fields().len();
    if snapshot.schema_fields.len() == encoder_field_count {
        return Ok(());
    }
    Err(
        FSETypedQueryIndexArchiveCodecError::CompactBatchEncoderFieldCountMismatch {
            schema_field_count: snapshot.schema_fields.len(),
            encoder_field_count,
        },
    )
}

/// Encodes a typed record batch in the columnar compact layout, with category
/// codes taken from the record encoder metadata. The batch is not checked
/// against the typed schema rules here; the codec only requires that each value
/// fits its field.
pub fn encode_typed_query_index_record_batch_section(
    snapshot: &FSERecordBatchArchiveSnapshot,
    record_encoder: &FSERecordEncoderMetadata,
) -> (result: Result<Vec<u8>, FSETypedQueryIndexArchiveCodecError>)
    ensures
        match batch_section_bytes(*snapshot, record_encoder@) {
            Ok(bytes) => result matches Ok(out) && out@ == bytes,
            Err(error) => result == Err::<Vec<u8>, FSETypedQueryIndexArchiveCodecError>(error),
        },
{
    match validate_compact_batch_encoder_field_count(snapshot, record_encoder) {
        Ok(()) => {},
        Err(error) => return Err(error),
    }
    let mut bytes: Vec<u8> = Vec::new();
    write_bytes(&mut bytes, COMPACT_TYPED_BATCH_SECTION_V5_MAGIC.as_slice());
    write_u64(&mut bytes, snapshot.schema_fields.len() as u64);
    write_compact_batch_fields(&mut bytes, snapshot.schema_fields.as_slice());
    write_compact_u64_vec(&mut bytes, snapshot.row_ids.as_slice());
    write_u64(&mut bytes, snapshot.records.len() as u64);
    let ghost header = bytes@;
    match write_compact_batch_columns(&mut bytes, snapshot, record_encoder.fields()) {
        Ok(()) => {},
        Err(error) => return Err(error),
    }
    proof {
        assert(COMPACT_TYPED_BATCH_SECTION_V5_MAGIC@ =~= section_magic(5));
        assert(bytes@ =~= batch_section_bytes(*snapshot, record_encoder@)->Ok_0);
    }
    Ok(bytes)
}


/// Two values hold the same content; texts and labels are compared by their characters.
pub open spec fn value_matches(left: FSEValueArchiveRecord, right: FSEValueArchiveRecord) -> bool {
    match (left, right) {
        (FSEValueArchiveRecord::Text(a), FSEValueArchiveRecord::Text(b)) => a@ == b@,
        (FSEValueArchiveRecord::Category(a), FSEValueArchiveRecord::Category(b)) => a@ == b@,
        (FSEValueArchiveRecord::Text(_), _) => false,
        (FSEValueArchiveRecord::Category(_), _) => false,
        _ => left == right,
    }
}

/// Two schema fields hold the same name, type and nullable flag.
pub open spec fn field_matches(left: FSEFieldArchiveRecord, right: FSEFieldArchiveRecord) -> bool {
    &&& left.name@ == right.name@
    &&& left.field_type == right.field_type
    &&& left.nullable == right.nullable
}

/// Two record batch snapshots hold the same fields, row ids and values.
pub open spec fn snapshot_matches(left: FSERecordBatchArchiveSnapshot, right: FSERecordBatchArchiveSnapshot) -> bool {
    &&& left.schema_fields@.len() == right.schema_fields@.len()
    &&& forall|i: int|
        0 <= i < left.schema_fields@.len() ==> field_matches(
            #[trigger] left.schema_fields@[i],
            right.schema_fields@[i],
        )
    &&& left.row_ids@ == right.row_ids@
    &&& left.records@.len() == right.records@.len()
    &&& forall|r: int|
        0 <= r < left.records@.len() ==> #[trigger] left.records@[r].values@.len()
            == right.records@[r].values@.len()
    &&& forall|r: int, f: int|
        0 <= r < left.records@.len() && 0 <= f < left.records@[r].values@.len() ==> value_matches(
            #[trigger] left.records@[r].values@[f],
            right.records@[r].values@[f],
        )
}

/// Every record holds exactly one value per schema field.
pub open spec fn records_have_field_count(snapshot: FSERecordBatchArchiveSnapshot) -> bool {
    forall|r: int|
        0 <= r < snapshot.records@.len() ==> #[trigger] snapshot.records@[r].values@.len()
            == snapshot.schema_fields@.len()
}

fn read_compact_bool(cursor: &mut ByteCursor, field: &'static str) -> (result: Result<
    bool,
    FSETypedQueryIndexArchiveCodecError,
>)
    requires
        old(cursor).wf(),
    ensures
        final(cursor).wf(),
        final(cursor).bytes@ == old(cursor).bytes@,
        result matches Ok(flag) ==> old(cursor).rest() == seq![bool_byte(flag)] + final(cursor).rest(),
        old(cursor).rest().len() >= 1 && old(cursor).rest()[0] <= 1 ==> result is Ok,
        old(cursor).rest().len() >= 1 && old(cursor).rest()[0] > 1 ==> result == Err::<
            bool,
            FSETypedQueryIndexArchiveCodecError,
        >(
            FSETypedQueryIndexArchiveCodecError::InvalidCompactBatchBoolean {
                field,
                value: old(cursor).rest()[0],
            },
        ),
{
    let value = match cursor.read_u8() {
        Ok(value) => value,
        Err(error) => return Err(lift(error, field)),
    };
    proof {
        assert(old(cursor).rest() =~= seq![value] + cursor.rest());
    }
    if value == 0 {
        Ok(false)
    } else if value == 1 {
        Ok(true)
    } else {
        Err(FSETypedQueryIndexArchiveCodecError::InvalidCompactBatchBoolean { field, value })
    }
}

/// Reads the compact tag byte of a field type.
fn read_compact_batch_field_type_tag(cursor: &mut ByteCursor, field: &'static str) -> (result:
    Result<FSEFieldTypeArchiveTag, FSETypedQueryIndexArchiveCodecError>)
    requires
        old(cursor).wf(),
    ensures
        final(cursor).wf(),
        final(cursor).bytes@ == old(cursor).bytes@,
        result matches Ok(tag) ==> old(cursor).rest() == seq![compact_field_type_tag(tag)] + final(cursor).rest(),
        old(cursor).rest().len() >= 1 && old(cursor).rest()[0] <= 5 ==> result is Ok,
        old(cursor).rest().len() >= 1 && old(cursor).rest()[0] > 5 ==> result == Err::<
            FSEFieldTypeArchiveTag,
            FSETypedQueryIndexArchiveCodecError,
        >(
            FSETypedQueryIndexArchiveCodecError::InvalidCompactBatchFieldTypeTag {
                field,
                tag: old(cursor).rest()[0],
            },
        ),
{
    let tag = match cursor.read_u8() {
        Ok(tag) => tag,
        Err(error) => return Err(lift(error, field)),
    };
    proof {
        assert(old(cursor).rest() =~= seq![tag] + cursor.rest());
    }
    if tag == 0 {
        Ok(FSEFieldTypeArchiveTag::Integer)
    } else if tag == 1 {
        Ok(FSEFieldTypeArchiveTag::Float)
    } else if tag == 2 {
        Ok(FSEFieldTypeArchiveTag::Text)
    } else if tag == 3 {
        Ok(FSEFieldTypeArchiveTag::Boolean)
    } else if tag == 4 {
        Ok(FSEFieldTypeArchiveTag::TimestampMillis)
    } else if tag == 5 {
        Ok(FSEFieldTypeArchiveTag::Category)
    } else {
        Err(FSETypedQueryIndexArchiveCodecError::InvalidCompactBatchFieldTypeTag { field, tag })
    }
}

/// Reads one schema field.
fn read_compact_batch_field(cursor: &mut ByteCursor, Ghost(target): Ghost<Option<FSEFieldArchiveRecord>>) -> (result: Result<
    FSEFieldArchiveRecord,
    FSETypedQueryIndexArchiveCodecError,
>)
    requires
        old(cursor).wf(),
        target matches Some(field) ==> starts_with(
            old(cursor).rest(),
            compact_batch_field_bytes(field),
        ),
    ensures
        final(cursor).wf(),
        final(cursor).bytes@ == old(cursor).bytes@,
        result matches Ok(field) ==> old(cursor).rest() == compact_batch_field_bytes(field) + final(cursor).rest(),
        target matches Some(field) ==> (result matches Ok(read) && field_matches(read, field)),
{
    let ghost start = cursor.rest();
    let ghost name_target: Option<Seq<char>> = match target {
        Some(field) => Some(field.name@),
        None => None,
    };
    proof {
        if let Some(field) = target {
            lemma_starts_with_split(
                start,
                string_field_bytes(field.name@),
                seq![compact_field_type_tag(field.field_type), bool_byte(field.nullable)],
            );
        }
    }
    let name = match read_text(cursor, "typed_index.record_batch.schema.field.name", Ghost(name_target)) {
        Ok(name) => name,
        Err(error) => return Err(error),
    };
    let ghost after_name = cursor.rest();
    proof {
        if let Some(field) = target {
            assert(after_name =~= start.subrange(
                string_field_bytes(field.name@).len() as int,
                start.len() as int,
            ));
            let tail = seq![compact_field_type_tag(field.field_type), bool_byte(field.nullable)];
            assert(after_name[0] == tail[0]);
            assert(after_name[1] == tail[1]);
        }
    }
    let field_type = match read_compact_batch_field_type_tag(
        cursor,
        "typed_index.record_batch.schema.field.type",
    ) {
        Ok(tag) => tag,
        Err(error) => return Err(error),
    };
    let nullable = match read_compact_bool(cursor, "typed_index.record_batch.schema.field.nullable") {
        Ok(flag) => flag,
        Err(error) => return Err(error),
    };
    let field = FSEFieldArchiveRecord { name, field_type, nullable };
    proof {
        assert(start =~= compact_batch_field_bytes(field) + cursor.rest());
        if let Some(expected) = target {
            assert(field_type == expected.field_type) by {
                match expected.field_type {
                    FSEFieldTypeArchiveTag::Integer => {},
                    FSEFieldTypeArchiveTag::Float => {},
                    FSEFieldTypeArchiveTag::Text => {},
                    FSEFieldTypeArchiveTag::Boolean => {},
                    FSEFieldTypeArchiveTag::TimestampMillis => {},
                    FSEFieldTypeArchiveTag::Category => {},
                }
                match field_type {
                    FSEFieldTypeArchiveTag::Integer => {},
                    FSEFieldTypeArchiveTag::Float => {},
                    FSEFieldTypeArchiveTag::Text => {},
                    FSEFieldTypeArchiveTag::Boolean => {},
                    FSEFieldTypeArchiveTag::TimestampMillis => {},
                    FSEFieldTypeArchiveTag::Category => {},
                }
            }
        }
    }
    Ok(field)
}

/// Reads a signed value stored as a zig-zag variable-length integer.
fn read_compact_i64(cursor: &mut ByteCursor, field: &'static str, Ghost(target): Ghost<Option<i64>>) -> (result: Result<
    i64,
    FSETypedQueryIndexArchiveCodecError,
>)
    requires
        old(cursor).wf(),
        target matches Some(value) ==> starts_with(old(cursor).rest(), var_u64_bytes(zig_zag(value))),
    ensures
        final(cursor).wf(),
        final(cursor).bytes@ == old(cursor).bytes@,
        target matches Some(value) ==> result == Ok::<i64, FSETypedQueryIndexArchiveCodecError>(value)
            && final(cursor).rest() == old(cursor).rest().subrange(
            var_u64_bytes(zig_zag(value)).len() as int,
            old(cursor).rest().len() as int,
        ),
        result matches Ok(value) ==> read_from_front(old(cursor).rest(), final(cursor).rest())
            && zig_zag_chunk_read(taken(old(cursor).rest(), final(cursor).rest()), value),
{
    proof {
        if let Some(value) = target {
            let encoded = var_u64_bytes(zig_zag(value));
            let rest = cursor.rest();
            let tail = rest.subrange(encoded.len() as int, rest.len() as int);
            assert(rest =~= encoded + tail);
            lemma_var_u64_round_trip(zig_zag(value), tail);
            lemma_zig_zag_round_trip(value, 0);
        }
    }
    let ghost start = cursor.rest();
    let raw = match cursor.read_var_u64() {
        Ok(raw) => raw,
        Err(error) => return Err(lift(error, field)),
    };
    proof {
        let end = var_u64_end_from(start, 0, 10)->0;
        lemma_var_u64_chunk(start, end);
        assert(taken(start, cursor.rest()) =~= start.subrange(0, end + 1int));
        assert(start =~= taken(start, cursor.rest()) + cursor.rest());
    }
    Ok(zig_zag_decode_i64(raw))
}


/// Reads a compact `u64` list in either layout.
#[verifier::spinoff_prover]
#[verifier::rlimit(100)]
fn read_compact_u64_vec(cursor: &mut ByteCursor, field: &'static str, Ghost(target): Ghost<Option<Seq<u64>>>) -> (result: Result<
    Vec<u64>,
    FSETypedQueryIndexArchiveCodecError,
>)
    requires
        old(cursor).wf(),
        target matches Some(values) ==> starts_with(old(cursor).rest(), compact_u64_vec_bytes(values)),
    ensures
        final(cursor).wf(),
        final(cursor).bytes@ == old(cursor).bytes@,
        target matches Some(values) ==> (result matches Ok(read) && read@ == values)
            && final(cursor).rest() == old(cursor).rest().subrange(
            compact_u64_vec_bytes(values).len() as int,
            old(cursor).rest().len() as int,
        ),
        result matches Ok(read) ==> read_from_front(old(cursor).rest(), final(cursor).rest())
            && compact_u64_vec_read(taken(old(cursor).rest(), final(cursor).rest()), read@),
        old(cursor).rest().len() >= 1 && old(cursor).rest()[0] > COMPACT_U64_VEC_VARINT_MODE ==> result
            == Err::<Vec<u64>, FSETypedQueryIndexArchiveCodecError>(
            FSETypedQueryIndexArchiveCodecError::InvalidCompactIntegerVectorMode {
                field,
                mode: old(cursor).rest()[0],
            },
        ),
{
    let ghost start = cursor.rest();
    let ghost has_target = target is Some;
    let ghost values: Seq<u64> = match target {
        Some(values) => values,
        None => Seq::empty(),
    };
    let ghost encoded = compact_u64_vec_bytes(values);
    let ghost varint = var_u64s_bytes(values).len() < 8 * values.len();
    proof {
        lemma_auto_spec_u64_to_from_le_bytes();
        if has_target {
            assert(start[0] == encoded[0]);
        }
    }
    let mode = match cursor.read_u8() {
        Ok(mode) => mode,
        Err(error) => return Err(lift(error, field)),
    };
    let ghost after_mode = cursor.rest();
    proof {
        if has_target {
            assert(after_mode =~= start.subrange(1, start.len() as int));
            assert(start.subrange(0, encoded.len() as int) == encoded);
            lemma_var_u64s_len(values);
            lemma_u64s_le_bytes(values);
            assert(after_mode.subrange(0, 8) =~= start.subrange(0, encoded.len() as int).subrange(
                1,
                9,
            ));
            if varint {
                assert(mode == COMPACT_U64_VEC_VARINT_MODE);
                assert(encoded.subrange(1, 9) =~= spec_u64_to_le_bytes(values.len() as u64));
            } else {
                assert(mode == COMPACT_U64_VEC_RAW_MODE);
                assert(encoded.subrange(1, 9) =~= spec_u64_to_le_bytes(values.len() as u64));
            }
        }
    }
    if mode == COMPACT_U64_VEC_RAW_MODE {
        let length = match cursor.read_len() {
            Ok(length) => length,
            Err(error) => return Err(lift(error, field)),
        };
        let ghost body = cursor.rest();
        let mut read: Vec<u64> = Vec::with_capacity(length);
        let mut index: usize = 0;
        proof {
            if has_target {
                lemma_u64s_le_bytes(values);
                assert(body =~= after_mode.subrange(8, after_mode.len() as int));
                let chunks = u64s_le_bytes(values);
                assert(body.subrange(0, chunks.len() as int) =~= start.subrange(
                    0,
                    encoded.len() as int,
                ).subrange(9, encoded.len() as int));
                assert(encoded.subrange(9, encoded.len() as int) =~= chunks);
                assert forall|i: int| 0 <= i < values.len() implies #[trigger] body.subrange(
                    8 * i,
                    8 * i + 8,
                ) == spec_u64_to_le_bytes(values[i]) by {
                    assert(body.subrange(8 * i, 8 * i + 8) =~= body.subrange(
                        0,
                        chunks.len() as int,
                    ).subrange(8 * i, 8 * i + 8));
                    assert(chunks.subrange(8 * i, 8 * i + 8) == spec_u64_to_le_bytes(values[i]));
                }
                assert(values.subrange(0, 0) =~= Seq::<u64>::empty());
            }
        }
        while index < length
            invariant
                cursor.wf(),
                cursor.bytes@ == old(cursor).bytes@,
                old(cursor).rest().len() >= 1,
                old(cursor).rest()[0] == mode,
                mode == COMPACT_U64_VEC_RAW_MODE,
                has_target == (target is Some),
                has_target ==> target == Some(values),
                index <= length,
                read@.len() == index,
                8 * index <= body.len(),
                cursor.rest() == body.subrange(8 * index, body.len() as int),
                body.subrange(0, 8 * index) == u64s_le_bytes(read@),
                has_target ==> {
                    &&& !varint
                    &&& length == values.len()
                    &&& body.len() >= 8 * values.len()
                    &&& cursor.rest() == body.subrange(8 * index, body.len() as int)
                    &&& read@ == values.subrange(0, index as int)
                    &&& forall|i: int|
                        0 <= i < values.len() ==> #[trigger] body.subrange(8 * i, 8 * i + 8)
                            == spec_u64_to_le_bytes(values[i])
                },
            decreases length - index,
        {
            let ghost at = cursor.rest();
            let value = match cursor.read_u64() {
                Ok(value) => value,
                Err(error) => return Err(lift(error, field)),
            };
            proof {
                lemma_auto_spec_u64_to_from_le_bytes();
                assert(at.subrange(0, 8) =~= body.subrange(8 * index, 8 * index + 8));
                assert(cursor.rest() =~= body.subrange(8 * (index + 1), body.len() as int));
                assert(body.subrange(0, 8 * (index + 1)) =~= body.subrange(0, 8 * index) + body.subrange(
                    8 * index,
                    8 * index + 8,
                ));
                if has_target {
                    let rest = body.subrange(8 * index, body.len() as int);
                    assert(rest.subrange(0, 8) =~= body.subrange(8 * index, 8 * index + 8));
                    assert(cursor.rest() =~= body.subrange(8 * (index + 1), body.len() as int));
                }
            }
            let ghost earlier = read@;
            read.push(value);
            proof {
                assert(read@.drop_last() =~= earlier);
                if has_target {
                    assert(read@ =~= values.subrange(0, index + 1));
                }
            }
            index = index + 1;
        }
        proof {
            assert(start =~= seq![mode] + after_mode);
            assert(after_mode =~= after_mode.subrange(0, 8) + body);
            assert(after_mode.subrange(0, 8) =~= spec_u64_to_le_bytes(length as u64));
            assert(body =~= body.subrange(0, 8 * length) + cursor.rest());
            assert(taken(start, cursor.rest()) =~= seq![COMPACT_U64_VEC_RAW_MODE] + u64_vec_bytes(read@));
            reveal(compact_u64_vec_read);
            assert(start =~= taken(start, cursor.rest()) + cursor.rest());
            if has_target {
                assert(read@ =~= values);
                assert(cursor.rest() =~= start.subrange(encoded.len() as int, start.len() as int));
            }
        }
        Ok(read)
    } else if mode == COMPACT_U64_VEC_VARINT_MODE {
        let length = match cursor.read_len() {
            Ok(length) => length,
            Err(error) => return Err(lift(error, field)),
        };
        let ghost body = cursor.rest();
        let ghost tail = start.subrange(encoded.len() as int, start.len() as int);
        proof {
            if has_target {
                assert(start =~= encoded + tail);
                assert(body =~= start.subrange(9, start.len() as int));
                assert(encoded.subrange(9, encoded.len() as int) =~= var_u64s_bytes(values));
                assert(body =~= var_u64s_bytes(values) + tail);
                assert(values.subrange(0, values.len() as int) =~= values);
            }
        }
        let mut read: Vec<u64> = Vec::with_capacity(length);
        let mut index: usize = 0;
        let ghost mut position: int = 0;
        let ghost mut pieces: Seq<Seq<u8>> = Seq::empty();
        proof {
            assert(body.subrange(0, 0) =~= Seq::<u8>::empty());
            assert(cursor.rest() =~= body.subrange(0, body.len() as int));
        }
        while index < length
            invariant
                cursor.wf(),
                cursor.bytes@ == old(cursor).bytes@,
                old(cursor).rest().len() >= 1,
                old(cursor).rest()[0] == mode,
                mode == COMPACT_U64_VEC_VARINT_MODE,
                0 <= position <= body.len(),
                cursor.rest() == body.subrange(position, body.len() as int),
                pieces.len() == read@.len(),
                body.subrange(0, position) == joined(pieces),
                forall|i: int|
                    0 <= i < pieces.len() ==> is_var_u64_chunk(#[trigger] pieces[i]) && var_u64_chunk_value(
                        pieces[i],
                    ) == read@[i],
                has_target == (target is Some),
                has_target ==> target == Some(values),
                index <= length,
                read@.len() == index,
                has_target ==> {
                    &&& length == values.len()
                    &&& cursor.rest() == var_u64s_bytes(
                        values.subrange(index as int, values.len() as int),
                    ) + tail
                    &&& read@ == values.subrange(0, index as int)
                },
            decreases length - index,
        {
            proof {
                if has_target {
                    lemma_var_u64s_first(values, index as int);
                    let later = var_u64s_bytes(values.subrange(index + 1, values.len() as int)) + tail;
                    assert(cursor.rest() =~= var_u64_bytes(values[index as int]) + later);
                    lemma_var_u64_round_trip(values[index as int], later);
                }
            }
            let ghost at = cursor.rest();
            let value = match cursor.read_var_u64() {
                Ok(value) => value,
                Err(error) => return Err(lift(error, field)),
            };
            let ghost next_position = position + (at.len() - cursor.rest().len());
            proof {
                let end = var_u64_end_from(at, 0, 10)->0;
                lemma_var_u64_chunk(at, end);
                assert(at.subrange(0, end + 1int) =~= body.subrange(position, next_position));
                assert(cursor.rest() =~= body.subrange(next_position, body.len() as int));
                let grown = body.subrange(0, next_position);
                assert(grown =~= body.subrange(0, position) + body.subrange(position, next_position));
                lemma_joined_push(pieces, body.subrange(position, next_position));
            }
            proof {
                if has_target {
                    let later = var_u64s_bytes(values.subrange(index + 1, values.len() as int)) + tail;
                    let here = var_u64_bytes(values[index as int]);
                    assert(cursor.rest() =~= later);
                }
            }
            read.push(value);
            proof {
                pieces = pieces.push(body.subrange(position, next_position));
                position = next_position;
                if has_target {
                    assert(read@ =~= values.subrange(0, index + 1));
                }
            }
            index = index + 1;
        }
        proof {
            assert(start =~= seq![mode] + after_mode);
            assert(after_mode =~= after_mode.subrange(0, 8) + body);
            assert(after_mode.subrange(0, 8) =~= spec_u64_to_le_bytes(length as u64));
            assert(body =~= body.subrange(0, position) + cursor.rest());
            let chunk = taken(start, cursor.rest());
            assert(chunk =~= seq![mode] + after_mode.subrange(0, 8) + body.subrange(0, position));
            assert(chunk.subrange(1, 9) =~= spec_u64_to_le_bytes(read@.len() as u64));
            assert(chunk.subrange(9, chunk.len() as int) =~= body.subrange(0, position));
            assert(start =~= chunk + cursor.rest());
            reveal(compact_u64_vec_read);
            reveal(var_u64s_read);
            assert(joined(pieces) == chunk.subrange(9, chunk.len() as int));
            if has_target {
                assert(read@ =~= values);
                assert(values.subrange(values.len() as int, values.len() as int) =~= Seq::<u64>::empty());
                assert(cursor.rest() =~= tail);
            }
        }
        Ok(read)
    } else {
        Err(FSETypedQueryIndexArchiveCodecError::InvalidCompactIntegerVectorMode { field, mode })
    }
}


/// Reads a category code of the width that a dictionary of `category_count`
/// labels calls for.
fn read_compact_category_code(
    cursor: &mut ByteCursor,
    field: &'static str,
    category_count: usize,
    Ghost(target): Ghost<Option<u64>>,
) -> (result: Result<u64, FSETypedQueryIndexArchiveCodecError>)
    requires
        old(cursor).wf(),
        target matches Some(code) ==> code < category_count && starts_with(
            old(cursor).rest(),
            category_code_bytes(category_count as nat, code),
        ),
    ensures
        final(cursor).wf(),
        final(cursor).bytes@ == old(cursor).bytes@,
        target matches Some(code) ==> result == Ok::<u64, FSETypedQueryIndexArchiveCodecError>(code)
            && final(cursor).rest() == old(cursor).rest().subrange(
            category_code_bytes(category_count as nat, code).len() as int,
            old(cursor).rest().len() as int,
        ),
        result is Ok ==> old(cursor).rest().len() >= category_code_width(category_count as nat),
        old(cursor).rest().len() >= category_code_width(category_count as nat) ==> result == Ok::<
            u64,
            FSETypedQueryIndexArchiveCodecError,
        >(category_code_at(old(cursor).rest(), category_count as nat)) && final(cursor).rest()
            == old(cursor).rest().subrange(
            category_code_width(category_count as nat) as int,
            old(cursor).rest().len() as int,
        ),
{
    proof {
        lemma_auto_spec_u16_to_from_le_bytes();
        lemma_auto_spec_u32_to_from_le_bytes();
        lemma_auto_spec_u64_to_from_le_bytes();
        if let Some(code) = target {
            let encoded = category_code_bytes(category_count as nat, code);
            assert(cursor.rest().subrange(0, encoded.len() as int) == encoded);
        }
    }
    if category_count as u64 <= 0x100 {
        let value = match cursor.read_u8() {
            Ok(value) => value,
            Err(error) => return Err(lift(error, field)),
        };
        proof {
            if let Some(code) = target {
                let encoded = category_code_bytes(category_count as nat, code);
                assert(value == encoded[0]);
            }
        }
        Ok(value as u64)
    } else if category_count as u64 <= 0x1_0000 {
        let value = match cursor.read_u16() {
            Ok(value) => value,
            Err(error) => return Err(lift(error, field)),
        };
        Ok(value as u64)
    } else if category_count as u64 <= 0x1_0000_0000 {
        let value = match cursor.read_u32() {
            Ok(value) => value,
            Err(error) => return Err(lift(error, field)),
        };
        Ok(value as u64)
    } else {
        match cursor.read_u64() {
            Ok(value) => Ok(value),
            Err(error) => Err(lift(error, field)),
        }
    }
}

proof fn lemma_bit_test_facts(a: u8, b: u8, mask: u8, shift: u8, bit: u8)
    requires
        shift < 8,
        bit < 8,
    ensures
        ((a | b) & mask != 0) == ((a & mask != 0) || (b & mask != 0)),
        ((0u8 & mask) != 0) == false,
        (((1u8 << shift) & (1u8 << bit)) != 0) == (shift == bit),
{
    assert(((a | b) & mask != 0) == ((a & mask != 0) || (b & mask != 0))) by (bit_vector);
    assert(((0u8 & mask) != 0) == false) by (bit_vector);
    assert((((1u8 << shift) & (1u8 << bit)) != 0) == (shift == bit)) by (bit_vector)
        requires
            shift < 8,
            bit < 8,
    ;
}

proof fn lemma_bitmap_bit(flags: Seq<bool>, byte_index: int, count: nat, bit: u8)
    requires
        0 <= byte_index,
        count <= 8,
        bit < 8,
    ensures
        ((bitmap_byte_bits(flags, byte_index, count) & (1u8 << bit)) != 0) == (bit < count && 0 <= 8
            * byte_index + bit < flags.len() && flags[8 * byte_index + bit]),
    decreases count,
{
    if count == 0 {
        lemma_bit_test_facts(0, 0, 1u8 << bit, 0, bit);
    } else {
        lemma_bitmap_byte_bit_step(flags, byte_index, count, bit);
    }
}

proof fn lemma_bitmap_byte_bit_step(flags: Seq<bool>, byte_index: int, count: nat, bit: u8)
    requires
        0 <= byte_index,
        1 <= count <= 8,
        bit < 8,
    ensures
        ((bitmap_byte_bits(flags, byte_index, count) & (1u8 << bit)) != 0) == (bit < count && 0 <= 8
            * byte_index + bit < flags.len() && flags[8 * byte_index + bit]),
    decreases count, 0nat,
{
    lemma_bitmap_bit(flags, byte_index, (count - 1) as nat, bit);
    let position = 8 * byte_index + count - 1;
    let prefix = bitmap_byte_bits(flags, byte_index, (count - 1) as nat);
    let shift = (count - 1) as u8;
    let term = if 0 <= position < flags.len() && flags[position] {
        (1u8 << shift)
    } else {
        0u8
    };
    lemma_bit_test_facts(prefix, term, 1u8 << bit, shift, bit);
}

/// Reads the null map of a column of `record_count` values.
fn read_compact_batch_nulls(cursor: &mut ByteCursor, record_count: usize, Ghost(target): Ghost<Option<Seq<bool>>>) -> (result: Result<
    Vec<bool>,
    FSETypedQueryIndexArchiveCodecError,
>)
    requires
        old(cursor).wf(),
        target matches Some(flags) ==> flags.len() == record_count && starts_with(
            old(cursor).rest(),
            nulls_bytes(flags),
        ),
    ensures
        final(cursor).wf(),
        final(cursor).bytes@ == old(cursor).bytes@,
        result matches Ok(nulls) ==> nulls@.len() == record_count && read_from_front(
            old(cursor).rest(),
            final(cursor).rest(),
        ) && nulls_read(taken(old(cursor).rest(), final(cursor).rest()), nulls@),
        target matches Some(flags) ==> (result matches Ok(read) && read@ == flags)
            && final(cursor).rest() == old(cursor).rest().subrange(
            nulls_bytes(flags).len() as int,
            old(cursor).rest().len() as int,
        ),
        old(cursor).rest().len() >= 1 && old(cursor).rest()[0] > COMPACT_BATCH_NULLS_BITMAP_MODE
            ==> result == Err::<Vec<bool>, FSETypedQueryIndexArchiveCodecError>(
            FSETypedQueryIndexArchiveCodecError::InvalidCompactBatchNullMode {
                field: "typed_index.record_batch.column.nulls",
                mode: old(cursor).rest()[0],
            },
        ),
{
    let field = "typed_index.record_batch.column.nulls";
    let ghost start = cursor.rest();
    let ghost has_target = target is Some;
    let ghost flags: Seq<bool> = match target {
        Some(flags) => flags,
        None => Seq::empty(),
    };
    proof {
        if has_target {
            assert(start.subrange(0, nulls_bytes(flags).len() as int) == nulls_bytes(flags));
            assert(start[0] == nulls_bytes(flags)[0]);
        }
    }
    let mode = match cursor.read_u8() {
        Ok(mode) => mode,
        Err(error) => return Err(lift(error, field)),
    };
    if mode == COMPACT_BATCH_NULLS_NONE_MODE {
        let mut nulls: Vec<bool> = Vec::with_capacity(record_count);
        let mut index: usize = 0;
        while index < record_count
            invariant
                index <= record_count,
                nulls@.len() == index,
                forall|i: int| 0 <= i < index ==> !#[trigger] nulls@[i],
            decreases record_count - index,
        {
            nulls.push(false);
            index = index + 1;
        }
        proof {
            assert(taken(start, cursor.rest()) =~= seq![COMPACT_BATCH_NULLS_NONE_MODE]);
            assert(start =~= taken(start, cursor.rest()) + cursor.rest());
            reveal(nulls_read);
            if has_target {
                assert(!flags.contains(true));
                assert forall|i: int| 0 <= i < flags.len() implies flags[i] == nulls@[i] by {
                    if flags[i] {
                        assert(flags.contains(true));
                    }
                }
                assert(nulls@ =~= flags);
                assert(cursor.rest() =~= start.subrange(1, start.len() as int));
            }
        }
        Ok(nulls)
    } else if mode == COMPACT_BATCH_NULLS_BITMAP_MODE {
        let byte_count: usize = record_count / 8 + if record_count % 8 != 0 {
            1
        } else {
            0
        };
        proof {
            if has_target {
                assert(flags.contains(true));
                let encoded = nulls_bytes(flags);
                assert(encoded.len() == 1 + byte_count);
                assert(cursor.rest() =~= start.subrange(1, start.len() as int));
            }
        }
        let bitmap = match cursor.read_exact(byte_count) {
            Ok(bitmap) => bitmap,
            Err(error) => return Err(lift(error, field)),
        };
        proof {
            if has_target {
                let encoded = nulls_bytes(flags);
                assert(bitmap@ =~= encoded.subrange(1, encoded.len() as int));
                assert(bitmap@ =~= null_bitmap_bytes(flags));
                assert(cursor.rest() =~= start.subrange(encoded.len() as int, start.len() as int));
            }
        }
        let mut nulls: Vec<bool> = Vec::with_capacity(record_count);
        let mut index: usize = 0;
        while index < record_count
            invariant
                index <= record_count,
                bitmap@.len() == byte_count,
                byte_count == (record_count + 7) / 8,
                nulls@.len() == index,
                forall|i: int|
                    0 <= i < index ==> #[trigger] nulls@[i] == (bitmap@[i / 8] & (1u8 << ((i % 8) as u8))
                        != 0),
                has_target ==> flags.len() == record_count && bitmap@ == null_bitmap_bytes(flags)
                    && nulls@ == flags.subrange(0, index as int),
            decreases record_count - index,
        {
            let bit: u8 = (index % 8) as u8;
            let is_null = bitmap[index / 8] & (1u8 << bit) != 0;
            proof {
                if has_target {
                    lemma_bitmap_bit(flags, (index / 8) as int, 8, bit);
                    assert(8 * (index / 8) + bit == index);
                }
            }
            nulls.push(is_null);
            proof {
                if has_target {
                    assert(nulls@ =~= flags.subrange(0, index + 1));
                }
            }
            index = index + 1;
        }
        proof {
            let chunk = taken(start, cursor.rest());
            assert(chunk =~= seq![COMPACT_BATCH_NULLS_BITMAP_MODE] + bitmap@);
            assert(start =~= chunk + cursor.rest());
            assert forall|i: int| 0 <= i < nulls@.len() implies #[trigger] nulls@[i] == (chunk[1 + i / 8]
                & (1u8 << ((i % 8) as u8)) != 0) by {
                assert(chunk[1 + i / 8] == bitmap@[i / 8]);
            }
            reveal(nulls_read);
            if has_target {
                assert(nulls@ =~= flags);
            }
        }
        Ok(nulls)
    } else {
        Err(FSETypedQueryIndexArchiveCodecError::InvalidCompactBatchNullMode { field, mode })
    }
}


/// Reads one non-null value of field `field_index` in the columnar layout.
fn read_compact_batch_column_value(
    cursor: &mut ByteCursor,
    field_index: usize,
    schema_field: &FSEFieldArchiveRecord,
    fields: &[FSEFieldEncoderMetadata],
    Ghost(target): Ghost<Option<FSEValueArchiveRecord>>,
) -> (result: Result<FSEValueArchiveRecord, FSETypedQueryIndexArchiveCodecError>)
    requires
        old(cursor).wf(),
        target matches Some(value) ==> (field_index < fields@.len() && (column_value_bytes(
            field_index,
            value,
            schema_field.field_type,
            fields@[field_index as int],
        ) matches Ok(bytes) && starts_with(old(cursor).rest(), bytes))),
    ensures
        final(cursor).wf(),
        final(cursor).bytes@ == old(cursor).bytes@,
        target matches Some(value) ==> (result matches Ok(read) && value_matches(read, value))
            && final(cursor).rest() == old(cursor).rest().subrange(
            column_value_bytes(
                field_index,
                value,
                schema_field.field_type,
                fields@[field_index as int],
            )->Ok_0.len() as int,
            old(cursor).rest().len() as int,
        ),
        schema_field.field_type == FSEFieldTypeArchiveTag::Category && (field_index >= fields@.len()
            || !(fields@[field_index as int] is CategoryDictionary)) ==> result == Err::<
            FSEValueArchiveRecord,
            FSETypedQueryIndexArchiveCodecError,
        >(FSETypedQueryIndexArchiveCodecError::CompactBatchCategoryEncoderMismatch { field_index }),
        result matches Ok(value) ==> read_from_front(old(cursor).rest(), final(cursor).rest())
            && column_value_read(
            taken(old(cursor).rest(), final(cursor).rest()),
            schema_field.field_type,
            fields@,
            field_index as int,
            value,
        ),
        schema_field.field_type == FSEFieldTypeArchiveTag::Category && field_index < fields@.len() && (
        fields@[field_index as int] matches FSEFieldEncoderMetadata::CategoryDictionary { categories }
            && category_read_outcome(old(cursor).rest(), categories@, field_index, false, result))
            || !(schema_field.field_type == FSEFieldTypeArchiveTag::Category && field_index
            < fields@.len() && fields@[field_index as int] is CategoryDictionary),
{
    let field = "typed_index.record_batch.column.value";
    let ghost start = cursor.rest();
    let ghost has_target = target is Some;
    let ghost encoded: Seq<u8> = match target {
        Some(value) => column_value_bytes(
            field_index,
            value,
            schema_field.field_type,
            fields@[field_index as int],
        )->Ok_0,
        None => Seq::empty(),
    };
    match schema_field.field_type {
        FSEFieldTypeArchiveTag::Integer => {
            let ghost inner: Option<i64> = match target {
                Some(FSEValueArchiveRecord::Integer(v)) => Some(v),
                _ => None,
            };
            let value = match read_compact_i64(cursor, field, Ghost(inner)) {
                Ok(value) => value,
                Err(error) => return Err(error),
            };
            proof {
                reveal(column_value_read);
            }
            Ok(FSEValueArchiveRecord::Integer(value))
        },
        FSEFieldTypeArchiveTag::Float => {
            proof {
                lemma_auto_spec_u64_to_from_le_bytes();
                if has_target {
                    assert(start.subrange(0, 8) =~= start.subrange(0, encoded.len() as int));
                }
            }
            let bits = match cursor.read_u64() {
                Ok(bits) => bits,
                Err(error) => return Err(lift(error, field)),
            };
            proof {
                lemma_auto_spec_u64_to_from_le_bytes();
                assert(taken(start, cursor.rest()) =~= start.subrange(0, 8));
                assert(start =~= taken(start, cursor.rest()) + cursor.rest());
                reveal(column_value_read);
            }
            Ok(FSEValueArchiveRecord::Float(bits))
        },
        FSEFieldTypeArchiveTag::Text => {
            let ghost inner: Option<Seq<char>> = match target {
                Some(FSEValueArchiveRecord::Text(text)) => Some(text@),
                _ => None,
            };
            let text = match read_text(cursor, field, Ghost(inner)) {
                Ok(text) => text,
                Err(error) => return Err(error),
            };
            proof {
                assert(taken(start, cursor.rest()) =~= string_field_bytes(text@));
                reveal(column_value_read);
                if has_target {
                    assert(cursor.rest() =~= start.subrange(encoded.len() as int, start.len() as int));
                }
            }
            Ok(FSEValueArchiveRecord::Text(text))
        },
        FSEFieldTypeArchiveTag::Boolean => {
            proof {
                if has_target {
                    assert(start[0] == encoded[0]);
                }
            }
            let flag = match read_compact_bool(cursor, field) {
                Ok(flag) => flag,
                Err(error) => return Err(error),
            };
            proof {
                assert(taken(start, cursor.rest()) =~= seq![bool_byte(flag)]);
                reveal(column_value_read);
                if has_target {
                    assert(cursor.rest() =~= start.subrange(1, start.len() as int));
                }
            }
            Ok(FSEValueArchiveRecord::Boolean(flag))
        },
        FSEFieldTypeArchiveTag::TimestampMillis => {
            let ghost inner: Option<i64> = match target {
                Some(FSEValueArchiveRecord::TimestampMillis(v)) => Some(v),
                _ => None,
            };
            let value = match read_compact_i64(cursor, field, Ghost(inner)) {
                Ok(value) => value,
                Err(error) => return Err(error),
            };
            proof {
                reveal(column_value_read);
            }
            Ok(FSEValueArchiveRecord::TimestampMillis(value))
        },
        FSEFieldTypeArchiveTag::Category => {
            if field_index >= fields.len() {
                return Err(
                    FSETypedQueryIndexArchiveCodecError::CompactBatchCategoryEncoderMismatch {
                        field_index,
                    },
                );
            }
            match &fields[field_index] {
                FSEFieldEncoderMetadata::CategoryDictionary { categories } => {
                    let ghost inner: Option<u64> = match target {
                        Some(FSEValueArchiveRecord::Category(label)) => match first_label_position(
                            categories@,
                            label@,
                            0,
                        ) {
                            Some(position) => Some(position as u64),
                            None => None,
                        },
                        _ => None,
                    };
                    proof {
                        if let Some(FSEValueArchiveRecord::Category(label)) = target {
                            lemma_first_label_position_range(categories@, label@, 0);
                        }
                    }
                    let code = match read_compact_category_code(
                        cursor,
                        field,
                        categories.len(),
                        Ghost(inner),
                    ) {
                        Ok(code) => code,
                        Err(error) => return Err(error),
                    };
                    if code >= categories.len() as u64 {
                        return Err(
                            FSETypedQueryIndexArchiveCodecError::CompactBatchCategoryCodeOutOfRange {
                                field_index,
                                code,
                                category_count: categories.len(),
                            },
                        );
                    }
                    let label = categories[code as usize].clone();
                    proof {
                        let count = categories@.len();
                        let width = category_code_width(count);
                        let chunk = taken(start, cursor.rest());
                        assert(chunk =~= start.subrange(0, width as int));
                        assert(start =~= chunk + cursor.rest());
                        assert(chunk.subrange(0, width as int) =~= start.subrange(0, width as int));
                        if count <= 0x100 {
                            assert(chunk[0] == start[0]);
                        } else if count <= 0x1_0000 {
                            assert(chunk.subrange(0, 2) =~= start.subrange(0, 2));
                        } else if count <= 0x1_0000_0000 {
                            assert(chunk.subrange(0, 4) =~= start.subrange(0, 4));
                        } else {
                            assert(chunk.subrange(0, 8) =~= start.subrange(0, 8));
                        }
                        assert(category_code_at(chunk, count) == code);
                        reveal(column_value_read);
                    }
                    Ok(FSEValueArchiveRecord::Category(label))
                },
                _ => Err(
                    FSETypedQueryIndexArchiveCodecError::CompactBatchCategoryEncoderMismatch {
                        field_index,
                    },
                ),
            }
        },
    }
}


/// Copies a value.
pub fn clone_value(value: &FSEValueArchiveRecord) -> (copy: FSEValueArchiveRecord)
    ensures
        copy == *value,
{
    match value {
        FSEValueArchiveRecord::Integer(v) => FSEValueArchiveRecord::Integer(*v),
        FSEValueArchiveRecord::Float(bits) => FSEValueArchiveRecord::Float(*bits),
        FSEValueArchiveRecord::Text(text) => FSEValueArchiveRecord::Text(text.clone()),
        FSEValueArchiveRecord::Boolean(flag) => FSEValueArchiveRecord::Boolean(*flag),
        FSEValueArchiveRecord::TimestampMillis(v) => FSEValueArchiveRecord::TimestampMillis(*v),
        FSEValueArchiveRecord::Category(label) => FSEValueArchiveRecord::Category(label.clone()),
        FSEValueArchiveRecord::Null => FSEValueArchiveRecord::Null,
    }
}

/// The counts of a snapshot fit in `usize`.
pub open spec fn snapshot_counts_fit(snapshot: FSERecordBatchArchiveSnapshot) -> bool {
    &&& snapshot.schema_fields@.len() <= usize::MAX
    &&& snapshot.records@.len() <= usize::MAX
}

proof fn lemma_column_values_prefix(
    records: Seq<FSERecordArchiveRecord>,
    field_index: usize,
    field_type: FSEFieldTypeArchiveTag,
    encoder: FSEFieldEncoderMetadata,
    count: nat,
    total: nat,
)
    requires
        count <= total,
        column_values_bytes(records, field_index, field_type, encoder, total) is Ok,
    ensures
        column_values_bytes(records, field_index, field_type, encoder, count) is Ok,
        column_values_bytes(records, field_index, field_type, encoder, count)->Ok_0.len()
            <= column_values_bytes(records, field_index, field_type, encoder, total)->Ok_0.len(),
        column_values_bytes(records, field_index, field_type, encoder, total)->Ok_0.subrange(
            0,
            column_values_bytes(records, field_index, field_type, encoder, count)->Ok_0.len() as int,
        ) == column_values_bytes(records, field_index, field_type, encoder, count)->Ok_0,
    decreases total - count,
{
    if count < total {
        lemma_column_values_prefix(records, field_index, field_type, encoder, count, (total - 1) as nat);
        let shorter = column_values_bytes(records, field_index, field_type, encoder, (total - 1) as nat)->Ok_0;
        let longer = column_values_bytes(records, field_index, field_type, encoder, total)->Ok_0;
        let part = column_values_bytes(records, field_index, field_type, encoder, count)->Ok_0;
        assert(longer.subrange(0, shorter.len() as int) =~= shorter);
        assert(longer.subrange(0, part.len() as int) =~= shorter.subrange(0, part.len() as int));
    } else {
        let whole = column_values_bytes(records, field_index, field_type, encoder, total)->Ok_0;
        assert(whole.subrange(0, whole.len() as int) =~= whole);
    }
}

proof fn lemma_columns_prefix(
    snapshot: FSERecordBatchArchiveSnapshot,
    encoders: Seq<FSEFieldEncoderMetadata>,
    count: nat,
    total: nat,
)
    requires
        count <= total,
        columns_bytes(snapshot, encoders, total) is Ok,
    ensures
        columns_bytes(snapshot, encoders, count) is Ok,
        columns_bytes(snapshot, encoders, count)->Ok_0.len() <= columns_bytes(snapshot, encoders, total)->Ok_0.len(),
        columns_bytes(snapshot, encoders, total)->Ok_0.subrange(
            0,
            columns_bytes(snapshot, encoders, count)->Ok_0.len() as int,
        ) == columns_bytes(snapshot, encoders, count)->Ok_0,
    decreases total - count,
{
    if count < total {
        lemma_columns_prefix(snapshot, encoders, count, (total - 1) as nat);
        let shorter = columns_bytes(snapshot, encoders, (total - 1) as nat)->Ok_0;
        let longer = columns_bytes(snapshot, encoders, total)->Ok_0;
        let part = columns_bytes(snapshot, encoders, count)->Ok_0;
        assert(longer.subrange(0, shorter.len() as int) =~= shorter);
        assert(longer.subrange(0, part.len() as int) =~= shorter.subrange(0, part.len() as int));
    } else {
        let whole = columns_bytes(snapshot, encoders, total)->Ok_0;
        assert(whole.subrange(0, whole.len() as int) =~= whole);
    }
}

proof fn lemma_compact_batch_fields_first(fields: Seq<FSEFieldArchiveRecord>, index: int)
    requires
        0 <= index < fields.len(),
    ensures
        compact_batch_fields_bytes(fields.subrange(index, fields.len() as int))
            == compact_batch_field_bytes(fields[index]) + compact_batch_fields_bytes(
            fields.subrange(index + 1, fields.len() as int),
        ),
{
    let tail = fields.subrange(index + 1, fields.len() as int);
    assert(fields.subrange(index, fields.len() as int) =~= seq![fields[index]] + tail);
    lemma_compact_batch_fields_concat(seq![fields[index]], tail);
    reveal_with_fuel(compact_batch_fields_bytes, 2);
    assert(seq![fields[index]].drop_last() =~= Seq::<FSEFieldArchiveRecord>::empty());
    assert(compact_batch_fields_bytes(seq![fields[index]]) =~= compact_batch_field_bytes(
        fields[index],
    ));
}

proof fn lemma_compact_batch_fields_concat(left: Seq<FSEFieldArchiveRecord>, right: Seq<FSEFieldArchiveRecord>)
    ensures
        compact_batch_fields_bytes(left + right) == compact_batch_fields_bytes(left)
            + compact_batch_fields_bytes(right),
    decreases right.len(),
{
    if right.len() == 0 {
        assert(left + right =~= left);
    } else {
        lemma_compact_batch_fields_concat(left, right.drop_last());
        assert((left + right).drop_last() =~= left + right.drop_last());
    }
}


/// Reads `count` schema fields.
fn read_compact_batch_fields(cursor: &mut ByteCursor, count: usize, Ghost(target): Ghost<Option<Seq<FSEFieldArchiveRecord>>>) -> (result: Result<
    Vec<FSEFieldArchiveRecord>,
    FSETypedQueryIndexArchiveCodecError,
>)
    requires
        old(cursor).wf(),
        target matches Some(fields) ==> fields.len() == count && starts_with(
            old(cursor).rest(),
            compact_batch_fields_bytes(fields),
        ),
    ensures
        final(cursor).wf(),
        final(cursor).bytes@ == old(cursor).bytes@,
        result matches Ok(read) ==> read@.len() == count && old(cursor).rest()
            == compact_batch_fields_bytes(read@) + final(cursor).rest(),
        target matches Some(fields) ==> (result matches Ok(read) && forall|i: int|
            0 <= i < count ==> field_matches(#[trigger] read@[i], fields[i]))
            && final(cursor).rest() == old(cursor).rest().subrange(
            compact_batch_fields_bytes(fields).len() as int,
            old(cursor).rest().len() as int,
        ),
{
    let ghost has_target = target is Some;
    let ghost expected: Seq<FSEFieldArchiveRecord> = match target {
        Some(fields) => fields,
        None => Seq::empty(),
    };
    let ghost start = cursor.rest();
    let ghost tail = start.subrange(
        compact_batch_fields_bytes(expected).len() as int,
        start.len() as int,
    );
    proof {
        if has_target {
            assert(start =~= compact_batch_fields_bytes(expected) + tail);
            assert(expected.subrange(0, expected.len() as int) =~= expected);
        }
    }
    let mut read: Vec<FSEFieldArchiveRecord> = Vec::with_capacity(count);
    let mut index: usize = 0;
    while index < count
        invariant
            cursor.wf(),
            cursor.bytes@ == old(cursor).bytes@,
            has_target == (target is Some),
            has_target ==> target == Some(expected),
            index <= count,
            read@.len() == index,
            start == compact_batch_fields_bytes(read@) + cursor.rest(),
            has_target ==> {
                &&& expected.len() == count
                &&& cursor.rest() == compact_batch_fields_bytes(
                    expected.subrange(index as int, expected.len() as int),
                ) + tail
                &&& forall|i: int| 0 <= i < index ==> field_matches(#[trigger] read@[i], expected[i])
            },
        decreases count - index,
    {
        let ghost element: Option<FSEFieldArchiveRecord> = if has_target {
            Some(expected[index as int])
        } else {
            None
        };
        proof {
            if has_target {
                lemma_compact_batch_fields_first(expected, index as int);
                let later = compact_batch_fields_bytes(
                    expected.subrange(index + 1, expected.len() as int),
                ) + tail;
                assert(cursor.rest() =~= compact_batch_field_bytes(expected[index as int]) + later);
                assert(cursor.rest().subrange(
                    0,
                    compact_batch_field_bytes(expected[index as int]).len() as int,
                ) =~= compact_batch_field_bytes(expected[index as int]));
            }
        }
        let ghost before = cursor.rest();
        let field = match read_compact_batch_field(cursor, Ghost(element)) {
            Ok(field) => field,
            Err(error) => return Err(error),
        };
        proof {
            if has_target {
                let later = compact_batch_fields_bytes(
                    expected.subrange(index + 1, expected.len() as int),
                ) + tail;
                assert(before =~= compact_batch_field_bytes(field) + cursor.rest());
                assert(compact_batch_field_bytes(field) =~= compact_batch_field_bytes(
                    expected[index as int],
                ));
                let width = compact_batch_field_bytes(field).len() as int;
                assert(cursor.rest() =~= before.subrange(width, before.len() as int));
                assert(later =~= before.subrange(width, before.len() as int));
            }
        }
        let ghost earlier = read@;
        read.push(field);
        proof {
            assert(read@.drop_last() =~= earlier);
            assert(start =~= compact_batch_fields_bytes(read@) + cursor.rest());
        }
        index = index + 1;
    }
    proof {
        if has_target {
            assert(expected.subrange(count as int, expected.len() as int)
                =~= Seq::<FSEFieldArchiveRecord>::empty());
            assert(cursor.rest() =~= tail);
        }
    }
    Ok(read)
}


proof fn lemma_no_short_records(snapshot: FSERecordBatchArchiveSnapshot, field_index: int, index: int)
    requires
        records_have_field_count(snapshot),
        0 <= field_index < snapshot.schema_fields@.len(),
        0 <= index,
    ensures
        first_short_record(snapshot.records@, field_index, index) is None,
    decreases snapshot.records@.len() - index,
{
    if index < snapshot.records@.len() {
        assert(snapshot.records@[index].values@.len() == snapshot.schema_fields@.len());
        lemma_no_short_records(snapshot, field_index, index + 1);
    }
}

/// Reads the column of field `field_index`: its null map and its non-null values.
fn read_compact_batch_column(
    cursor: &mut ByteCursor,
    field_index: usize,
    schema_field: &FSEFieldArchiveRecord,
    fields: &[FSEFieldEncoderMetadata],
    record_count: usize,
    Ghost(target): Ghost<Option<FSERecordBatchArchiveSnapshot>>,
) -> (result: Result<Vec<FSEValueArchiveRecord>, FSETypedQueryIndexArchiveCodecError>)
    requires
        old(cursor).wf(),
        target matches Some(snapshot) ==> {
            &&& snapshot.records@.len() == record_count
            &&& field_index < snapshot.schema_fields@.len()
            &&& snapshot.schema_fields@.len() == fields@.len()
            &&& field_matches(*schema_field, snapshot.schema_fields@[field_index as int])
            &&& records_have_field_count(snapshot)
            &&& column_bytes(snapshot, fields@, field_index) is Ok
            &&& starts_with(old(cursor).rest(), column_bytes(snapshot, fields@, field_index)->Ok_0)
        },
    ensures
        final(cursor).wf(),
        final(cursor).bytes@ == old(cursor).bytes@,
        result matches Ok(column) ==> column@.len() == record_count && read_from_front(
            old(cursor).rest(),
            final(cursor).rest(),
        ) && column_read(
            taken(old(cursor).rest(), final(cursor).rest()),
            schema_field.field_type,
            fields@,
            field_index as int,
            column@,
        ),
        target matches Some(snapshot) ==> (result matches Ok(column) && forall|r: int|
            0 <= r < record_count ==> value_matches(
                #[trigger] column@[r],
                snapshot.records@[r].values@[field_index as int],
            )) && final(cursor).rest() == old(cursor).rest().subrange(
            column_bytes(snapshot, fields@, field_index)->Ok_0.len() as int,
            old(cursor).rest().len() as int,
        ),
{
    let ghost has_target = target is Some;
    let ghost snapshot = match target {
        Some(snapshot) => snapshot,
        None => arbitrary(),
    };
    let ghost records = snapshot.records@;
    let ghost field_type = schema_field.field_type;
    let ghost encoder = if field_index < fields@.len() {
        fields@[field_index as int]
    } else {
        FSEFieldEncoderMetadata::Integer
    };
    let ghost flags = null_flags(records, field_index as int);
    let ghost full = column_values_bytes(records, field_index, field_type, encoder, records.len())->Ok_0;
    let ghost start = cursor.rest();
    let ghost column = column_bytes(snapshot, fields@, field_index)->Ok_0;
    let ghost after = start.subrange(column.len() as int, start.len() as int);
    proof {
        if has_target {
            lemma_no_short_records(snapshot, field_index as int, 0);
            assert(column == nulls_bytes(flags) + full);
            assert(start.subrange(0, column.len() as int) == column);
            lemma_starts_with_split(start, nulls_bytes(flags), full);
        }
    }
    let ghost flags_target: Option<Seq<bool>> = if has_target {
        Some(flags)
    } else {
        None
    };
    let nulls = match read_compact_batch_nulls(cursor, record_count, Ghost(flags_target)) {
        Ok(nulls) => nulls,
        Err(error) => return Err(error),
    };
    proof {
        if has_target {
            assert(start =~= column + after);
            assert(cursor.rest() =~= full + after);
            assert(full.subrange(0, full.len() as int) =~= full);
            lemma_column_values_prefix(records, field_index, field_type, encoder, 0, records.len());
            reveal_with_fuel(column_values_bytes, 1);
        }
    }
    let ghost values_start = cursor.rest();
    let ghost nulls_chunk = taken(start, values_start);
    let ghost mut position: int = 0;
    let ghost mut pieces: Seq<Seq<u8>> = Seq::empty();
    proof {
        assert(values_start.subrange(0, 0) =~= Seq::<u8>::empty());
        assert(values_start.subrange(0, values_start.len() as int) =~= values_start);
    }
    let mut values: Vec<FSEValueArchiveRecord> = Vec::with_capacity(record_count);
    let mut index: usize = 0;
    while index < record_count
        invariant
            cursor.wf(),
            cursor.bytes@ == old(cursor).bytes@,
            0 <= position <= values_start.len(),
            cursor.rest() == values_start.subrange(position, values_start.len() as int),
            pieces.len() == index,
            values_start.subrange(0, position) == joined(pieces),
            forall|i: int| 0 <= i < index ==> (#[trigger] values@[i] is Null) == nulls@[i],
            forall|i: int|
                0 <= i < index ==> if values@[i] is Null {
                    (#[trigger] pieces[i]).len() == 0
                } else {
                    column_value_read(pieces[i], schema_field.field_type, fields@, field_index as int, values@[i])
                },
            has_target == (target is Some),
            has_target ==> target == Some(snapshot),
            nulls@.len() == record_count,
            index <= record_count,
            values@.len() == index,
            has_target ==> {
                &&& records == snapshot.records@
                &&& records.len() == record_count
                &&& field_index < fields@.len()
                &&& encoder == fields@[field_index as int]
                &&& field_type == schema_field.field_type
                &&& nulls@ == flags
                &&& flags == null_flags(records, field_index as int)
                &&& column_values_bytes(records, field_index, field_type, encoder, records.len()) is Ok
                &&& full == column_values_bytes(records, field_index, field_type, encoder, records.len())->Ok_0
                &&& column_values_bytes(records, field_index, field_type, encoder, index as nat) is Ok
                &&& cursor.rest() == full.subrange(
                    column_values_bytes(records, field_index, field_type, encoder, index as nat)->Ok_0.len() as int,
                    full.len() as int,
                ) + after
                &&& forall|r: int|
                    0 <= r < index ==> value_matches(#[trigger] values@[r], records[r].values@[field_index as int])
            },
        decreases record_count - index,
    {
        let ghost before = cursor.rest();
        let ghost done = column_values_bytes(records, field_index, field_type, encoder, index as nat)->Ok_0;
        proof {
            if has_target {
                lemma_column_values_prefix(
                    records,
                    field_index,
                    field_type,
                    encoder,
                    (index + 1) as nat,
                    records.len(),
                );
                lemma_column_values_prefix(
                    records,
                    field_index,
                    field_type,
                    encoder,
                    index as nat,
                    records.len(),
                );
            }
        }
        if nulls[index] {
            values.push(FSEValueArchiveRecord::Null);
            proof {
                lemma_joined_push(pieces, Seq::<u8>::empty());
                assert(values_start.subrange(0, position) =~= joined(pieces) + Seq::<u8>::empty());
                pieces = pieces.push(Seq::<u8>::empty());
            }
            proof {
                if has_target {
                    assert(records[index as int].values@[field_index as int] is Null);
                    let next = column_values_bytes(
                        records,
                        field_index,
                        field_type,
                        encoder,
                        (index + 1) as nat,
                    )->Ok_0;
                    assert(next == done);
                }
            }
        } else {
            let ghost value_target: Option<FSEValueArchiveRecord> = if has_target {
                Some(records[index as int].values@[field_index as int])
            } else {
                None
            };
            proof {
                if has_target {
                    let value = records[index as int].values@[field_index as int];
                    assert(!(value is Null));
                    let piece = column_value_bytes(field_index, value, field_type, encoder)->Ok_0;
                    let next = column_values_bytes(
                        records,
                        field_index,
                        field_type,
                        encoder,
                        (index + 1) as nat,
                    )->Ok_0;
                    assert(next == done + piece);
                    assert(full.subrange(0, next.len() as int) == next);
                    assert(before.subrange(0, piece.len() as int) =~= next.subrange(
                        done.len() as int,
                        next.len() as int,
                    ));
                    assert(next.subrange(done.len() as int, next.len() as int) =~= piece);
                }
            }
            let ghost at = cursor.rest();
            let value = match read_compact_batch_column_value(
                cursor,
                field_index,
                schema_field,
                fields,
                Ghost(value_target),
            ) {
                Ok(value) => value,
                Err(error) => return Err(error),
            };
            proof {
                if has_target {
                    let piece = column_value_bytes(
                        field_index,
                        records[index as int].values@[field_index as int],
                        field_type,
                        encoder,
                    )->Ok_0;
                    let next = column_values_bytes(
                        records,
                        field_index,
                        field_type,
                        encoder,
                        (index + 1) as nat,
                    )->Ok_0;
                    assert(cursor.rest() =~= full.subrange(next.len() as int, full.len() as int)
                        + after);
                }
            }
            proof {
                reveal(column_value_read);
                assert(!(value is Null));
                let next_position = position + (at.len() - cursor.rest().len());
                let piece = taken(at, cursor.rest());
                assert(at == piece + cursor.rest());
                assert(cursor.rest() =~= at.subrange(piece.len() as int, at.len() as int));
                assert(piece =~= values_start.subrange(position, next_position));
                assert(at.subrange(piece.len() as int, at.len() as int) =~= values_start.subrange(
                    next_position,
                    values_start.len() as int,
                ));
                assert(values_start.subrange(0, next_position) =~= values_start.subrange(0, position) + piece);
                lemma_joined_push(pieces, piece);
                pieces = pieces.push(piece);
                position = next_position;
            }
            values.push(value);
        }
        index = index + 1;
    }
    proof {
        let values_chunk = values_start.subrange(0, position);
        assert(values_start =~= values_chunk + cursor.rest());
        assert(start =~= nulls_chunk + values_start);
        let chunk = taken(start, cursor.rest());
        assert(chunk =~= nulls_chunk + values_chunk);
        assert(start =~= chunk + cursor.rest());
        assert(column_null_flags(values@) =~= nulls@);
        reveal(column_values_read);
        assert(column_values_read(values_chunk, schema_field.field_type, fields@, field_index as int, values@));
        reveal(column_read);
        assert(nulls_read(nulls_chunk, column_null_flags(values@)));
        if has_target {
            let done = column_values_bytes(records, field_index, field_type, encoder, records.len())->Ok_0;
            assert(full.subrange(done.len() as int, full.len() as int) =~= Seq::<u8>::empty());
            assert(cursor.rest() =~= after);
        }
    }
    Ok(values)
}


/// A section whose parts each read as the matching part of `snapshot` reads as
/// `snapshot`.
proof fn lemma_columnar_section_assembled(
    bytes: Seq<u8>,
    encoders: Seq<FSEFieldEncoderMetadata>,
    snapshot: FSERecordBatchArchiveSnapshot,
    rows: Seq<u8>,
    pieces: Seq<Seq<u8>>,
)
    requires
        records_have_field_count(snapshot),
        snapshot.schema_fields@.len() == encoders.len(),
        bytes.len() >= 8,
        bytes.subrange(8, bytes.len() as int) == spec_u64_to_le_bytes(snapshot.schema_fields@.len() as u64)
            + compact_batch_fields_bytes(snapshot.schema_fields@) + rows + spec_u64_to_le_bytes(
            snapshot.records@.len() as u64,
        ) + joined(pieces),
        compact_u64_vec_read(rows, snapshot.row_ids@),
        pieces.len() == snapshot.schema_fields@.len(),
        forall|f: int|
            0 <= f < pieces.len() ==> column_read(
                #[trigger] pieces[f],
                snapshot.schema_fields@[f].field_type,
                encoders,
                f,
                batch_columns(snapshot)[f],
            ),
    ensures
        columnar_section_read(bytes, encoders, snapshot),
{
    reveal(columns_read);
    let columns = batch_columns(snapshot);
    assert(columns_read(joined(pieces), snapshot.schema_fields@, encoders, columns));
    reveal(columnar_section_read);
}

proof fn lemma_decoded_section_reads(
    bytes: Seq<u8>,
    encoders: Seq<FSEFieldEncoderMetadata>,
    snapshot: FSERecordBatchArchiveSnapshot,
    at_field_count: Seq<u8>,
    at_fields: Seq<u8>,
    at_rows: Seq<u8>,
    rows: Seq<u8>,
    at_record_count: Seq<u8>,
    columns_start: Seq<u8>,
    pieces: Seq<Seq<u8>>,
    columns: Seq<Seq<FSEValueArchiveRecord>>,
)
    requires
        bytes.len() >= 8,
        at_field_count == bytes.subrange(8, bytes.len() as int),
        at_field_count.len() >= 8,
        at_fields == at_field_count.subrange(8, at_field_count.len() as int),
        le_u64(at_field_count) == snapshot.schema_fields@.len(),
        at_fields == compact_batch_fields_bytes(snapshot.schema_fields@) + at_rows,
        read_from_front(at_rows, at_record_count),
        rows == taken(at_rows, at_record_count),
        compact_u64_vec_read(rows, snapshot.row_ids@),
        at_record_count.len() >= 8,
        columns_start == at_record_count.subrange(8, at_record_count.len() as int),
        le_u64(at_record_count) == snapshot.records@.len(),
        columns_start == joined(pieces),
        snapshot.schema_fields@.len() == encoders.len(),
        records_have_field_count(snapshot),
        pieces.len() == snapshot.schema_fields@.len(),
        columns.len() == snapshot.schema_fields@.len(),
        forall|k: int| 0 <= k < columns.len() ==> (#[trigger] columns[k]).len() == snapshot.records@.len(),
        forall|r: int, k: int|
            0 <= r < snapshot.records@.len() && 0 <= k < columns.len() ==> #[trigger] snapshot.records@[r].values@[k]
                == columns[k][r],
        forall|k: int|
            0 <= k < pieces.len() ==> column_read(
                #[trigger] pieces[k],
                snapshot.schema_fields@[k].field_type,
                encoders,
                k,
                columns[k],
            ),
    ensures
        columnar_section_read(bytes, encoders, snapshot),
{
    lemma_auto_spec_u64_to_from_le_bytes();
    let fields = snapshot.schema_fields@;
    assert(at_field_count.subrange(0, 8) =~= spec_u64_to_le_bytes(fields.len() as u64));
    assert(at_record_count.subrange(0, 8) =~= spec_u64_to_le_bytes(snapshot.records@.len() as u64));
    assert(at_field_count =~= at_field_count.subrange(0, 8) + at_fields);
    assert(at_record_count =~= at_record_count.subrange(0, 8) + columns_start);
    assert(at_rows =~= rows + at_record_count);
    assert(bytes.subrange(8, bytes.len() as int) =~= spec_u64_to_le_bytes(fields.len() as u64)
        + compact_batch_fields_bytes(fields) + rows + spec_u64_to_le_bytes(snapshot.records@.len() as u64)
        + joined(pieces));
    let batch = batch_columns(snapshot);
    assert forall|k: int| 0 <= k < pieces.len() implies column_read(
        #[trigger] pieces[k],
        fields[k].field_type,
        encoders,
        k,
        batch[k],
    ) by {
        assert(batch[k] =~= columns[k]);
    }
    lemma_columnar_section_assembled(bytes, encoders, snapshot, rows, pieces);
}

/// The bytes are the section of a well-formed batch followed by at least one
/// more byte.
pub open spec fn encodes_with_trailing_bytes(
    snapshot: FSERecordBatchArchiveSnapshot,
    extra: Seq<u8>,
    bytes: Seq<u8>,
    encoders: Seq<FSEFieldEncoderMetadata>,
) -> bool {
    &&& records_have_field_count(snapshot)
    &&& snapshot_counts_fit(snapshot)
    &&& batch_section_bytes(snapshot, encoders) is Ok
    &&& extra.len() > 0
    &&& bytes == batch_section_bytes(snapshot, encoders)->Ok_0 + extra
}

/// Bytes that hold the section of a well-formed batch followed by more bytes,
/// and that no batch encodes to exactly, are refused as trailing bytes: as many
/// as follow such a section.
pub open spec fn columnar_trailing_bytes_refused(
    bytes: Seq<u8>,
    encoders: Seq<FSEFieldEncoderMetadata>,
    result: Result<FSERecordBatchArchiveSnapshot, FSETypedQueryIndexArchiveCodecError>,
) -> bool {
    (exists|snapshot: FSERecordBatchArchiveSnapshot, extra: Seq<u8>|
        #[trigger] encodes_with_trailing_bytes(snapshot, extra, bytes, encoders)) && !(exists|
        snapshot: FSERecordBatchArchiveSnapshot,
    |
        records_have_field_count(snapshot) && snapshot_counts_fit(snapshot) && #[trigger] batch_section_bytes(
            snapshot,
            encoders,
        ) == Ok::<Seq<u8>, FSETypedQueryIndexArchiveCodecError>(bytes)) ==> (result matches Err(
        FSETypedQueryIndexArchiveCodecError::TrailingBytes { remaining },
    ) && exists|snapshot: FSERecordBatchArchiveSnapshot, extra: Seq<u8>|
        #[trigger] encodes_with_trailing_bytes(snapshot, extra, bytes, encoders) && remaining
            == extra.len())
}

/// Decodes a columnar section toward `goal`: a batch whose section the bytes
/// start with, and the bytes that follow that section.
#[verifier::rlimit(100)]
fn decode_columnar_toward(
    bytes: &[u8],
    record_encoder: &FSERecordEncoderMetadata,
    Ghost(goal): Ghost<Option<(FSERecordBatchArchiveSnapshot, Seq<u8>)>>,
) -> (result: Result<FSERecordBatchArchiveSnapshot, FSETypedQueryIndexArchiveCodecError>)
    requires
        goal matches Some((target, extra)) ==> records_have_field_count(target) && snapshot_counts_fit(
            target,
        ) && batch_section_bytes(target, record_encoder@) is Ok && bytes@ == batch_section_bytes(
            target,
            record_encoder@,
        )->Ok_0 + extra,
    ensures
        goal matches Some((target, extra)) ==> (extra.len() == 0 ==> (result matches Ok(decoded)
            && snapshot_matches(decoded, target) && batch_section_bytes(decoded, record_encoder@)
            == Ok::<Seq<u8>, FSETypedQueryIndexArchiveCodecError>(bytes@))),
        goal matches Some((target, extra)) ==> (extra.len() > 0 ==> result == Err::<
            FSERecordBatchArchiveSnapshot,
            FSETypedQueryIndexArchiveCodecError,
        >(FSETypedQueryIndexArchiveCodecError::TrailingBytes { remaining: extra.len() as usize })),
        result matches Ok(decoded) ==> records_have_field_count(decoded),
        result matches Ok(decoded) ==> columnar_section_read(bytes@, record_encoder@, decoded),
        bytes@.len() < 8 ==> result == Err::<FSERecordBatchArchiveSnapshot, FSETypedQueryIndexArchiveCodecError>(
            FSETypedQueryIndexArchiveCodecError::UnexpectedEndOfArchive {
                field: "typed_index.record_batch.compact_magic",
                needed: 8,
                remaining: bytes@.len() as usize,
            },
        ),
        bytes@.len() >= 16 && le_u64(bytes@.subrange(8, bytes@.len() as int)) <= usize::MAX
            && le_u64(bytes@.subrange(8, bytes@.len() as int)) != record_encoder@.len() ==> result
            == Err::<FSERecordBatchArchiveSnapshot, FSETypedQueryIndexArchiveCodecError>(
            FSETypedQueryIndexArchiveCodecError::CompactBatchEncoderFieldCountMismatch {
                schema_field_count: le_u64(bytes@.subrange(8, bytes@.len() as int)) as usize,
                encoder_field_count: record_encoder@.len() as usize,
            },
        ),
{
    let ghost has_target = goal is Some;
    let ghost target: FSERecordBatchArchiveSnapshot = match goal {
        Some((t, _)) => t,
        None => arbitrary(),
    };
    let ghost extra: Seq<u8> = match goal {
        Some((_, e)) => e,
        None => Seq::empty(),
    };
    let ghost encoders = record_encoder@;
    let ghost field_total = target.schema_fields@.len();
    let ghost record_total = target.records@.len();
    let ghost fields_part = compact_batch_fields_bytes(target.schema_fields@);
    let ghost rows_part = compact_u64_vec_bytes(target.row_ids@);
    let ghost columns_part = columns_bytes(target, encoders, field_total)->Ok_0;
    proof {
        lemma_auto_spec_u64_to_from_le_bytes();
        if has_target {
            assert(bytes@ =~= section_magic(5) + spec_u64_to_le_bytes(field_total as u64)
                + fields_part + rows_part + spec_u64_to_le_bytes(record_total as u64) + columns_part
                + extra);
        }
    }
    let fields = record_encoder.fields();
    let mut cursor = ByteCursor::new(bytes);
    match cursor.read_exact(8) {
        Ok(_) => {},
        Err(error) => return Err(lift(error, "typed_index.record_batch.compact_magic")),
    }
    proof {
        if has_target {
            assert(cursor.rest() =~= spec_u64_to_le_bytes(field_total as u64) + fields_part
                + rows_part + spec_u64_to_le_bytes(record_total as u64) + columns_part + extra);
            assert(cursor.rest().subrange(0, 8) =~= spec_u64_to_le_bytes(field_total as u64));
        }
        assert(cursor.rest() =~= bytes@.subrange(8, bytes@.len() as int));
    }
    let ghost at_field_count = cursor.rest();
    let field_count = match cursor.read_len() {
        Ok(count) => count,
        Err(error) => return Err(lift(error, "typed_index.record_batch.schema.field_count")),
    };
    if field_count != fields.len() {
        return Err(
            FSETypedQueryIndexArchiveCodecError::CompactBatchEncoderFieldCountMismatch {
                schema_field_count: field_count,
                encoder_field_count: fields.len(),
            },
        );
    }
    proof {
        if has_target {
            assert(field_count == field_total);
            assert(cursor.rest() =~= fields_part + rows_part + spec_u64_to_le_bytes(
                record_total as u64,
            ) + columns_part + extra);
            assert(cursor.rest().subrange(0, fields_part.len() as int) =~= fields_part);
        }
    }
    let ghost fields_target: Option<Seq<FSEFieldArchiveRecord>> = if has_target {
        Some(target.schema_fields@)
    } else {
        None
    };
    let ghost at_fields = cursor.rest();
    let schema_fields = match read_compact_batch_fields(&mut cursor, field_count, Ghost(fields_target)) {
        Ok(schema_fields) => schema_fields,
        Err(error) => return Err(error),
    };
    proof {
        if has_target {
            assert(cursor.rest() =~= rows_part + spec_u64_to_le_bytes(record_total as u64)
                + columns_part + extra);
            assert(cursor.rest().subrange(0, rows_part.len() as int) =~= rows_part);
        }
    }
    let ghost rows_target: Option<Seq<u64>> = if has_target {
        Some(target.row_ids@)
    } else {
        None
    };
    let ghost at_rows = cursor.rest();
    let row_ids = match read_compact_u64_vec(&mut cursor, "typed_index.record_batch.row_ids", Ghost(rows_target)) {
        Ok(row_ids) => row_ids,
        Err(error) => return Err(error),
    };
    proof {
        if has_target {
            assert(cursor.rest() =~= spec_u64_to_le_bytes(record_total as u64) + columns_part + extra);
            assert(cursor.rest().subrange(0, 8) =~= spec_u64_to_le_bytes(record_total as u64));
        }
    }
    let ghost rows_chunk = taken(at_rows, cursor.rest());
    let ghost at_record_count = cursor.rest();
    let record_count = match cursor.read_len() {
        Ok(count) => count,
        Err(error) => return Err(lift(error, "typed_index.record_batch.record_count")),
    };
    proof {
        if has_target {
            assert(record_count == record_total);
            assert(cursor.rest() =~= columns_part + extra);
            lemma_columns_prefix(target, encoders, 0, field_total);
            assert(columns_part.subrange(0, columns_part.len() as int) =~= columns_part);
        }
    }
    let ghost columns_start = cursor.rest();
    let ghost mut position: int = 0;
    let ghost mut pieces: Seq<Seq<u8>> = Seq::empty();
    proof {
        assert(columns_start.subrange(0, 0) =~= Seq::<u8>::empty());
        assert(columns_start.subrange(0, columns_start.len() as int) =~= columns_start);
    }
    let mut columns: Vec<Vec<FSEValueArchiveRecord>> = Vec::with_capacity(field_count);
    let mut field_index: usize = 0;
    while field_index < field_count
        invariant
            cursor.wf(),
            cursor.bytes@ == bytes@,
            0 <= position <= columns_start.len(),
            cursor.rest() == columns_start.subrange(position, columns_start.len() as int),
            pieces.len() == field_index,
            columns_start.subrange(0, position) == joined(pieces),
            forall|k: int|
                0 <= k < field_index ==> column_read(
                    #[trigger] pieces[k],
                    schema_fields@[k].field_type,
                    encoders,
                    k,
                    columns@[k]@,
                ),
            has_target == (goal is Some),
            has_target ==> goal == Some((target, extra)),
            bytes@.len() >= 16 && le_u64(bytes@.subrange(8, bytes@.len() as int)) == field_count,
            has_target ==> records_have_field_count(target) && snapshot_counts_fit(target)
                && batch_section_bytes(target, encoders) is Ok && bytes@ == batch_section_bytes(
                target,
                encoders,
            )->Ok_0 + extra,
            encoders == record_encoder@,
            fields@ == encoders,
            field_count == fields@.len(),
            schema_fields@.len() == field_count,
            field_index <= field_count,
            columns@.len() == field_index,
            forall|k: int| 0 <= k < field_index ==> (#[trigger] columns@[k])@.len() == record_count,
            has_target ==> {
                &&& field_total == field_count
                &&& record_total == record_count
                &&& target.records@.len() == record_count
                &&& target.schema_fields@.len() == field_count
                &&& forall|i: int|
                    0 <= i < field_count ==> field_matches(
                        #[trigger] schema_fields@[i],
                        target.schema_fields@[i],
                    )
                &&& columns_bytes(target, encoders, field_total) is Ok
                &&& columns_part == columns_bytes(target, encoders, field_total)->Ok_0
                &&& columns_bytes(target, encoders, field_index as nat) is Ok
                &&& cursor.rest() == columns_part.subrange(
                    columns_bytes(target, encoders, field_index as nat)->Ok_0.len() as int,
                    columns_part.len() as int,
                ) + extra
                &&& forall|k: int, r: int|
                    0 <= k < field_index && 0 <= r < record_count ==> value_matches(
                        #[trigger] columns@[k]@[r],
                        target.records@[r].values@[k],
                    )
            },
        decreases field_count - field_index,
    {
        let ghost before = cursor.rest();
        let ghost done = columns_bytes(target, encoders, field_index as nat)->Ok_0;
        proof {
            if has_target {
                lemma_columns_prefix(target, encoders, (field_index + 1) as nat, field_total);
                let next = columns_bytes(target, encoders, (field_index + 1) as nat)->Ok_0;
                let column = column_bytes(target, encoders, field_index)->Ok_0;
                assert(next == done + column);
                assert(columns_part.subrange(0, next.len() as int) == next);
                assert(before.subrange(0, column.len() as int) =~= next.subrange(
                    done.len() as int,
                    next.len() as int,
                ));
                assert(next.subrange(done.len() as int, next.len() as int) =~= column);
            }
        }
        let ghost column_target: Option<FSERecordBatchArchiveSnapshot> = if has_target {
            Some(target)
        } else {
            None
        };
        let ghost at = cursor.rest();
        let column = match read_compact_batch_column(
            &mut cursor,
            field_index,
            &schema_fields[field_index],
            fields,
            record_count,
            Ghost(column_target),
        ) {
            Ok(column) => column,
            Err(error) => return Err(error),
        };
        proof {
            if has_target {
                let next = columns_bytes(target, encoders, (field_index + 1) as nat)->Ok_0;
                assert(cursor.rest() =~= columns_part.subrange(
                    next.len() as int,
                    columns_part.len() as int,
                ) + extra);
            }
        }
        proof {
            let next_position = position + (at.len() - cursor.rest().len());
            let piece = taken(at, cursor.rest());
            assert(at == piece + cursor.rest());
            assert(piece =~= columns_start.subrange(position, next_position));
            assert(at.subrange(piece.len() as int, at.len() as int) =~= columns_start.subrange(
                next_position,
                columns_start.len() as int,
            ));
            assert(cursor.rest() =~= at.subrange(piece.len() as int, at.len() as int));
            assert(columns_start.subrange(0, next_position) =~= columns_start.subrange(0, position) + piece);
            lemma_joined_push(pieces, piece);
            pieces = pieces.push(piece);
            position = next_position;
        }
        columns.push(column);
        field_index = field_index + 1;
    }
    proof {
        if has_target {
            assert(cursor.rest() =~= extra);
        }
    }
    if cursor.remaining() != 0 {
        return Err(
            FSETypedQueryIndexArchiveCodecError::TrailingBytes { remaining: cursor.remaining() },
        );
    }
    let records = transpose_columns(&columns, field_count, record_count);
    let snapshot = FSERecordBatchArchiveSnapshot { schema_fields, row_ids, records };
    proof {
        lemma_decoded_section_reads(
            bytes@,
            encoders,
            snapshot,
            at_field_count,
            at_fields,
            at_rows,
            rows_chunk,
            at_record_count,
            columns_start,
            pieces,
            Seq::new(field_count as nat, |k: int| columns@[k]@),
        );
        if has_target {
            assert(snapshot.row_ids@ == target.row_ids@);
            assert forall|r: int, f: int|
                0 <= r < snapshot.records@.len() && 0 <= f < snapshot.records@[r].values@.len()
                implies value_matches(
                #[trigger] snapshot.records@[r].values@[f],
                target.records@[r].values@[f],
            ) by {
                assert(snapshot.records@[r].values@[f] == columns@[f]@[r]);
            }
            assert forall|r: int| 0 <= r < snapshot.records@.len() implies #[trigger] snapshot.records@[r].values@.len()
                == target.records@[r].values@.len() by {
                assert(target.records@[r].values@.len() == target.schema_fields@.len());
            }
            assert(snapshot_matches(snapshot, target));
            lemma_matching_snapshots_encode_alike(snapshot, target, encoders);
            assert(bytes@ =~= batch_section_bytes(target, encoders)->Ok_0);
        }
    }
    Ok(snapshot)
}



/// Decodes a typed record batch section in the columnar layout. Decoding the
/// bytes that encoding produced gives back a snapshot with the same fields, row
/// ids and values, for every snapshot whose records hold one value per field,
/// and a batch is returned only when the bytes read as that batch, mode by mode
/// (`columnar_section_read`). The decoded batch is not checked against the
/// typed schema rules here.
#[verifier::spinoff_prover]
#[verifier::rlimit(80)]
pub fn decode_columnar_typed_query_index_record_batch_section(
    bytes: &[u8],
    record_encoder: &FSERecordEncoderMetadata,
) -> (result: Result<FSERecordBatchArchiveSnapshot, FSETypedQueryIndexArchiveCodecError>)
    ensures
        forall|snapshot: FSERecordBatchArchiveSnapshot|
            records_have_field_count(snapshot) && snapshot_counts_fit(snapshot) && #[trigger] batch_section_bytes(
                snapshot,
                record_encoder@,
            ) == Ok::<Seq<u8>, FSETypedQueryIndexArchiveCodecError>(bytes@) ==> (result matches Ok(
                decoded,
            ) && batch_section_bytes(decoded, record_encoder@) == Ok::<
                Seq<u8>,
                FSETypedQueryIndexArchiveCodecError,
            >(bytes@)),
        (exists|snapshot: FSERecordBatchArchiveSnapshot|
            records_have_field_count(snapshot) && snapshot_counts_fit(snapshot) && #[trigger] batch_section_bytes(
                snapshot,
                record_encoder@,
            ) == Ok::<Seq<u8>, FSETypedQueryIndexArchiveCodecError>(bytes@)) ==> (result matches Ok(
            decoded,
        ) && exists|snapshot: FSERecordBatchArchiveSnapshot|
            records_have_field_count(snapshot) && #[trigger] batch_section_bytes(
                snapshot,
                record_encoder@,
            ) == Ok::<Seq<u8>, FSETypedQueryIndexArchiveCodecError>(bytes@) && snapshot_matches(
                decoded,
                snapshot,
            )),
        forall|snapshot: FSERecordBatchArchiveSnapshot|
            records_have_field_count(snapshot) && snapshot_counts_fit(snapshot) && dictionaries_fit(
                record_encoder@,
            ) && #[trigger] batch_section_bytes(snapshot, record_encoder@) == Ok::<
                Seq<u8>,
                FSETypedQueryIndexArchiveCodecError,
            >(bytes@) ==> (result matches Ok(decoded) && snapshot_matches(decoded, snapshot)),
        columnar_trailing_bytes_refused(bytes@, record_encoder@, result),
        result matches Ok(decoded) ==> records_have_field_count(decoded),
        result matches Ok(decoded) ==> columnar_section_read(bytes@, record_encoder@, decoded),
        bytes@.len() < 8 ==> result == Err::<FSERecordBatchArchiveSnapshot, FSETypedQueryIndexArchiveCodecError>(
            FSETypedQueryIndexArchiveCodecError::UnexpectedEndOfArchive {
                field: "typed_index.record_batch.compact_magic",
                needed: 8,
                remaining: bytes@.len() as usize,
            },
        ),
        bytes@.len() >= 16 && le_u64(bytes@.subrange(8, bytes@.len() as int)) <= usize::MAX
            && le_u64(bytes@.subrange(8, bytes@.len() as int)) != record_encoder@.len() ==> result
            == Err::<FSERecordBatchArchiveSnapshot, FSETypedQueryIndexArchiveCodecError>(
            FSETypedQueryIndexArchiveCodecError::CompactBatchEncoderFieldCountMismatch {
                schema_field_count: le_u64(bytes@.subrange(8, bytes@.len() as int)) as usize,
                encoder_field_count: record_encoder@.len() as usize,
            },
        ),
{
    let ghost exact = exists|snapshot: FSERecordBatchArchiveSnapshot|
        records_have_field_count(snapshot) && snapshot_counts_fit(snapshot) && #[trigger] batch_section_bytes(
            snapshot,
            record_encoder@,
        ) == Ok::<Seq<u8>, FSETypedQueryIndexArchiveCodecError>(bytes@);
    let ghost longer = exists|snapshot: FSERecordBatchArchiveSnapshot, extra: Seq<u8>|
        encodes_with_trailing_bytes(snapshot, extra, bytes@, record_encoder@);
    let ghost goal: Option<(FSERecordBatchArchiveSnapshot, Seq<u8>)> = if exact {
        Some(
            (
                choose|snapshot: FSERecordBatchArchiveSnapshot|
                    records_have_field_count(snapshot) && snapshot_counts_fit(snapshot)
                        && #[trigger] batch_section_bytes(snapshot, record_encoder@) == Ok::<
                        Seq<u8>,
                        FSETypedQueryIndexArchiveCodecError,
                    >(bytes@),
                Seq::<u8>::empty(),
            ),
        )
    } else if longer {
        Some(
            choose|snapshot: FSERecordBatchArchiveSnapshot, extra: Seq<u8>|
                encodes_with_trailing_bytes(snapshot, extra, bytes@, record_encoder@),
        )
    } else {
        None
    };
    proof {
        if exact {
            let (target, extra) = goal->Some_0;
            assert(bytes@ =~= batch_section_bytes(target, record_encoder@)->Ok_0 + extra);
        }
    }
    let byte_count = bytes.len();
    let result = decode_columnar_toward(bytes, record_encoder, Ghost(goal));
    proof {
        if exact {
            let (target, extra) = goal->Some_0;
            assert forall|snapshot: FSERecordBatchArchiveSnapshot|
                records_have_field_count(snapshot) && snapshot_counts_fit(snapshot) && dictionaries_fit(
                    record_encoder@,
                ) && #[trigger] batch_section_bytes(snapshot, record_encoder@) == Ok::<
                    Seq<u8>,
                    FSETypedQueryIndexArchiveCodecError,
                >(bytes@) implies (result matches Ok(decoded) && snapshot_matches(decoded, snapshot)) by {
                assert(bytes@.len() == byte_count);
                lemma_batch_section_bytes_injective(target, snapshot, record_encoder@);
                lemma_snapshot_matches_trans(result->Ok_0, target, snapshot);
            }
        }
        if !exact && longer {
            let (target, extra) = goal->Some_0;
            assert(encodes_with_trailing_bytes(target, extra, bytes@, record_encoder@));
            assert(extra.len() <= byte_count);
            assert(result == Err::<FSERecordBatchArchiveSnapshot, FSETypedQueryIndexArchiveCodecError>(
                FSETypedQueryIndexArchiveCodecError::TrailingBytes { remaining: extra.len() as usize },
            ));
        }
    }
    result
}

/// Builds records from columns: record `r` holds value `r` of each column.
fn transpose_columns(
    columns: &Vec<Vec<FSEValueArchiveRecord>>,
    field_count: usize,
    record_count: usize,
) -> (records: Vec<FSERecordArchiveRecord>)
    requires
        columns@.len() == field_count,
        forall|k: int| 0 <= k < field_count ==> (#[trigger] columns@[k])@.len() == record_count,
    ensures
        records@.len() == record_count,
        forall|r: int| 0 <= r < record_count ==> (#[trigger] records@[r]).values@.len() == field_count,
        forall|r: int, k: int|
            0 <= r < record_count && 0 <= k < field_count ==> #[trigger] records@[r].values@[k]
                == columns@[k]@[r],
{
    let mut records: Vec<FSERecordArchiveRecord> = Vec::with_capacity(record_count);
    let mut record_index: usize = 0;
    while record_index < record_count
        invariant
            columns@.len() == field_count,
            forall|k: int| 0 <= k < field_count ==> (#[trigger] columns@[k])@.len() == record_count,
            record_index <= record_count,
            records@.len() == record_index,
            forall|r: int| 0 <= r < record_index ==> (#[trigger] records@[r]).values@.len() == field_count,
            forall|r: int, k: int|
                0 <= r < record_index && 0 <= k < field_count ==> #[trigger] records@[r].values@[k]
                    == columns@[k]@[r],
        decreases record_count - record_index,
    {
        let mut values: Vec<FSEValueArchiveRecord> = Vec::with_capacity(field_count);
        let mut column_index: usize = 0;
        while column_index < field_count
            invariant
                columns@.len() == field_count,
                forall|k: int| 0 <= k < field_count ==> (#[trigger] columns@[k])@.len() == record_count,
                record_index < record_count,
                column_index <= field_count,
                values@.len() == column_index,
                forall|k: int| 0 <= k < column_index ==> #[trigger] values@[k] == columns@[k]@[record_index as int],
            decreases field_count - column_index,
        {
            values.push(clone_value(&columns[column_index][record_index]));
            column_index = column_index + 1;
        }
        records.push(FSERecordArchiveRecord { values });
        record_index = record_index + 1;
    }
    records
}


proof fn lemma_value_bytes_agree(
    field_index: usize,
    left: FSEValueArchiveRecord,
    right: FSEValueArchiveRecord,
    field_type: FSEFieldTypeArchiveTag,
    encoder: FSEFieldEncoderMetadata,
)
    requires
        value_matches(left, right),
        column_value_bytes(field_index, right, field_type, encoder) is Ok,
    ensures
        column_value_bytes(field_index, left, field_type, encoder) == column_value_bytes(
            field_index,
            right,
            field_type,
            encoder,
        ),
{
}

proof fn lemma_column_values_agree(
    left: Seq<FSERecordArchiveRecord>,
    right: Seq<FSERecordArchiveRecord>,
    field_index: usize,
    field_type: FSEFieldTypeArchiveTag,
    encoder: FSEFieldEncoderMetadata,
    count: nat,
)
    requires
        count <= left.len() == right.len(),
        forall|r: int|
            0 <= r < right.len() ==> field_index < (#[trigger] right[r]).values@.len()
                && left[r].values@.len() == right[r].values@.len(),
        forall|r: int|
            0 <= r < right.len() ==> value_matches(
                #[trigger] left[r].values@[field_index as int],
                right[r].values@[field_index as int],
            ),
        column_values_bytes(right, field_index, field_type, encoder, count) is Ok,
    ensures
        column_values_bytes(left, field_index, field_type, encoder, count) == column_values_bytes(
            right,
            field_index,
            field_type,
            encoder,
            count,
        ),
    decreases count,
{
    if count > 0 {
        let r = count - 1;
        assert(value_matches(left[r].values@[field_index as int], right[r].values@[field_index as int]));
        if column_values_bytes(right, field_index, field_type, encoder, (count - 1) as nat) is Err {
            assert(false);
        }
        lemma_column_values_agree(left, right, field_index, field_type, encoder, (count - 1) as nat);
        let value = right[r].values@[field_index as int];
        if !(value is Null) {
            lemma_value_bytes_agree(
                field_index,
                left[r].values@[field_index as int],
                value,
                field_type,
                encoder,
            );
        }
    }
}

proof fn lemma_compact_batch_fields_agree(left: Seq<FSEFieldArchiveRecord>, right: Seq<FSEFieldArchiveRecord>)
    requires
        left.len() == right.len(),
        forall|i: int| 0 <= i < right.len() ==> field_matches(#[trigger] left[i], right[i]),
    ensures
        compact_batch_fields_bytes(left) == compact_batch_fields_bytes(right),
    decreases right.len(),
{
    if right.len() > 0 {
        assert(field_matches(left[right.len() - 1], right[right.len() - 1]));
        lemma_compact_batch_fields_agree(left.drop_last(), right.drop_last());
    }
}

proof fn lemma_columns_agree(
    left: FSERecordBatchArchiveSnapshot,
    right: FSERecordBatchArchiveSnapshot,
    encoders: Seq<FSEFieldEncoderMetadata>,
    count: nat,
)
    requires
        snapshot_matches(left, right),
        records_have_field_count(right),
        count <= right.schema_fields@.len(),
        columns_bytes(right, encoders, count) is Ok,
    ensures
        columns_bytes(left, encoders, count) == columns_bytes(right, encoders, count),
    decreases count,
{
    if count > 0 {
        let f = (count - 1) as usize;
        if columns_bytes(right, encoders, (count - 1) as nat) is Err {
            assert(false);
        }
        lemma_columns_agree(left, right, encoders, (count - 1) as nat);
        lemma_no_short_records(right, f as int, 0);
        let lrec = left.records@;
        let rrec = right.records@;
        assert forall|r: int| 0 <= r < rrec.len() implies f < (#[trigger] rrec[r]).values@.len()
            && lrec[r].values@.len() == rrec[r].values@.len() by {
            assert(rrec[r].values@.len() == right.schema_fields@.len());
            assert(lrec[r].values@.len() == rrec[r].values@.len());
        }
        assert forall|r: int| 0 <= r < rrec.len() implies value_matches(
            #[trigger] lrec[r].values@[f as int],
            rrec[r].values@[f as int],
        ) by {
            assert(rrec[r].values@.len() == right.schema_fields@.len());
        }
        assert(records_have_field_count(left)) by {
            assert forall|r: int| 0 <= r < lrec.len() implies #[trigger] lrec[r].values@.len()
                == left.schema_fields@.len() by {
                assert(rrec[r].values@.len() == right.schema_fields@.len());
            }
        }
        lemma_no_short_records(left, f as int, 0);
        assert(field_matches(left.schema_fields@[f as int], right.schema_fields@[f as int]));
        let field_type = right.schema_fields@[f as int].field_type;
        lemma_column_values_agree(lrec, rrec, f, field_type, encoders[f as int], rrec.len());
        assert(null_flags(lrec, f as int) =~= null_flags(rrec, f as int)) by {
            assert forall|r: int| 0 <= r < rrec.len() implies null_flags(lrec, f as int)[r]
                == null_flags(rrec, f as int)[r] by {
                assert(value_matches(lrec[r].values@[f as int], rrec[r].values@[f as int]));
            }
        }
    }
}

/// A snapshot that holds the same content as another, whose records hold one
/// value per field, encodes to the same section bytes.
pub proof fn lemma_matching_snapshots_encode_alike(
    left: FSERecordBatchArchiveSnapshot,
    right: FSERecordBatchArchiveSnapshot,
    encoders: Seq<FSEFieldEncoderMetadata>,
)
    requires
        snapshot_matches(left, right),
        records_have_field_count(right),
        batch_section_bytes(right, encoders) is Ok,
    ensures
        batch_section_bytes(left, encoders) == batch_section_bytes(right, encoders),
{
    lemma_columns_agree(left, right, encoders, right.schema_fields@.len());
    lemma_compact_batch_fields_agree(left.schema_fields@, right.schema_fields@);
}


/// Layouts of the compact typed record batch section, oldest first.
#[derive(Clone, Copy, Debug, PartialEq, Eq, Structural)]
pub enum CompactBatchRecordLayout {
    /// Row-oriented records that each store their value count.
    LegacyValueCount,
    /// Row-oriented records with a fixed field count and raw row ids.
    FixedFieldCountRawRowIds,
    /// Row-oriented records with a fixed field count and compact row ids.
    FixedFieldCountCompactRowIds,
    /// Row-oriented records with compact row ids and zig-zag signed values.
    FixedFieldCountCompactRowIdsCompactSignedValues,
    /// Columnar values.
    ColumnarCompactValues,
}

/// Version number in the magic of a layout.
pub open spec fn layout_version(layout: CompactBatchRecordLayout) -> u8 {
    match layout {
        CompactBatchRecordLayout::LegacyValueCount => 1,
        CompactBatchRecordLayout::FixedFieldCountRawRowIds => 2,
        CompactBatchRecordLayout::FixedFieldCountCompactRowIds => 3,
        CompactBatchRecordLayout::FixedFieldCountCompactRowIdsCompactSignedValues => 4,
        CompactBatchRecordLayout::ColumnarCompactValues => 5,
    }
}

impl CompactBatchRecordLayout {
    /// Returns the magic bytes of the layout.
    pub fn magic(self) -> (magic: [u8; 8])
        ensures
            magic@ == section_magic(layout_version(self)),
    {
        let magic = match self {
            CompactBatchRecordLayout::LegacyValueCount => COMPACT_TYPED_BATCH_SECTION_V1_MAGIC,
            CompactBatchRecordLayout::FixedFieldCountRawRowIds => COMPACT_TYPED_BATCH_SECTION_V2_MAGIC,
            CompactBatchRecordLayout::FixedFieldCountCompactRowIds => {
                COMPACT_TYPED_BATCH_SECTION_V3_MAGIC
            },
            CompactBatchRecordLayout::FixedFieldCountCompactRowIdsCompactSignedValues => {
                COMPACT_TYPED_BATCH_SECTION_V4_MAGIC
            },
            CompactBatchRecordLayout::ColumnarCompactValues => COMPACT_TYPED_BATCH_SECTION_V5_MAGIC,
        };
        assert(magic@ =~= section_magic(layout_version(self)));
        magic
    }

    /// Returns whether every record stores one value per field without a count.
    pub fn uses_fixed_field_count(self) -> (fixed: bool)
        ensures
            fixed == (self != CompactBatchRecordLayout::LegacyValueCount),
    {
        match self {
            CompactBatchRecordLayout::LegacyValueCount => false,
            _ => true,
        }
    }

    /// Returns whether row ids are stored as a compact `u64` list.
    pub fn uses_compact_row_ids(self) -> (compact: bool)
        ensures
            compact == (layout_version(self) >= 3),
    {
        match self {
            CompactBatchRecordLayout::FixedFieldCountCompactRowIds
            | CompactBatchRecordLayout::FixedFieldCountCompactRowIdsCompactSignedValues
            | CompactBatchRecordLayout::ColumnarCompactValues => true,
            _ => false,
        }
    }

    /// Returns whether signed values are stored as zig-zag variable-length integers.
    pub fn uses_compact_signed_values(self) -> (compact: bool)
        ensures
            compact == (layout_version(self) >= 4),
    {
        match self {
            CompactBatchRecordLayout::FixedFieldCountCompactRowIdsCompactSignedValues
            | CompactBatchRecordLayout::ColumnarCompactValues => true,
            _ => false,
        }
    }
}

/// Tag byte of a value in the row-oriented layouts.
pub open spec fn compact_value_tag(value: FSEValueArchiveRecord) -> u8 {
    match value {
        FSEValueArchiveRecord::Null => 0,
        FSEValueArchiveRecord::Integer(_) => 1,
        FSEValueArchiveRecord::Float(_) => 2,
        FSEValueArchiveRecord::Text(_) => 3,
        FSEValueArchiveRecord::Boolean(_) => 4,
        FSEValueArchiveRecord::TimestampMillis(_) => 5,
        FSEValueArchiveRecord::Category(_) => 6,
    }
}

/// Bytes of a signed value in a row-oriented layout: zig-zag variable-length in
/// layouts with compact signed values, else the eight little-endian bytes of its
/// two's-complement bits.
pub open spec fn row_i64_bytes(value: i64, layout: CompactBatchRecordLayout) -> Seq<u8> {
    if layout_version(layout) >= 4 {
        var_u64_bytes(zig_zag(value))
    } else {
        spec_u64_to_le_bytes(value as u64)
    }
}

/// Bytes of a category code in a row-oriented layout: eight little-endian bytes
/// in the oldest layout, else as wide as the dictionary size needs.
pub open spec fn row_category_code_bytes(category_count: nat, code: u64, layout: CompactBatchRecordLayout) -> Seq<u8> {
    if layout == CompactBatchRecordLayout::LegacyValueCount {
        spec_u64_to_le_bytes(code)
    } else {
        category_code_bytes(category_count, code)
    }
}

/// Bytes of a value of field `field_index` in a row-oriented layout: its tag,
/// then its payload. A category is stored as the code of its first occurrence in
/// the field's dictionary; there are none when the field has no dictionary or
/// the label is not in it.
pub open spec fn row_value_bytes(
    value: FSEValueArchiveRecord,
    encoders: Seq<FSEFieldEncoderMetadata>,
    field_index: int,
    layout: CompactBatchRecordLayout,
) -> Option<Seq<u8>> {
    match value {
        FSEValueArchiveRecord::Null => Some(seq![0u8]),
        FSEValueArchiveRecord::Integer(v) => Some(seq![1u8] + row_i64_bytes(v, layout)),
        FSEValueArchiveRecord::Float(bits) => Some(seq![2u8] + spec_u64_to_le_bytes(bits)),
        FSEValueArchiveRecord::Text(text) => Some(seq![3u8] + string_field_bytes(text@)),
        FSEValueArchiveRecord::Boolean(flag) => Some(seq![4u8, bool_byte(flag)]),
        FSEValueArchiveRecord::TimestampMillis(v) => Some(seq![5u8] + row_i64_bytes(v, layout)),
        FSEValueArchiveRecord::Category(label) => if 0 <= field_index < encoders.len() {
            match encoders[field_index] {
                FSEFieldEncoderMetadata::CategoryDictionary { categories } => match first_label_position(
                    categories@,
                    label@,
                    0,
                ) {
                    Some(position) => Some(
                        seq![6u8] + row_category_code_bytes(categories@.len(), position as u64, layout),
                    ),
                    None => None,
                },
                _ => None,
            }
        } else {
            None
        },
    }
}

/// Bytes of the first `count` values of a record in a row-oriented layout.
pub open spec fn row_values_bytes(
    values: Seq<FSEValueArchiveRecord>,
    encoders: Seq<FSEFieldEncoderMetadata>,
    layout: CompactBatchRecordLayout,
    count: nat,
) -> Option<Seq<u8>>
    decreases count,
{
    if count == 0 {
        Some(Seq::empty())
    } else {
        match row_values_bytes(values, encoders, layout, (count - 1) as nat) {
            Some(prefix) => match row_value_bytes(values[count - 1], encoders, count - 1, layout) {
                Some(last) => Some(prefix + last),
                None => None,
            },
            None => None,
        }
    }
}

/// Bytes of a record in a row-oriented layout: in the oldest layout its value
/// count and values, in the others exactly one value per field encoder.
pub open spec fn row_record_bytes(
    record: FSERecordArchiveRecord,
    encoders: Seq<FSEFieldEncoderMetadata>,
    layout: CompactBatchRecordLayout,
) -> Option<Seq<u8>> {
    let values = record.values@;
    match row_values_bytes(values, encoders, layout, values.len()) {
        Some(body) => if layout == CompactBatchRecordLayout::LegacyValueCount {
            Some(spec_u64_to_le_bytes(values.len() as u64) + body)
        } else if values.len() == encoders.len() {
            Some(body)
        } else {
            None
        },
        None => None,
    }
}

/// Bytes of the first `count` records in a row-oriented layout.
pub open spec fn row_records_bytes(
    records: Seq<FSERecordArchiveRecord>,
    encoders: Seq<FSEFieldEncoderMetadata>,
    layout: CompactBatchRecordLayout,
    count: nat,
) -> Option<Seq<u8>>
    decreases count,
{
    if count == 0 {
        Some(Seq::empty())
    } else {
        match row_records_bytes(records, encoders, layout, (count - 1) as nat) {
            Some(prefix) => match row_record_bytes(records[count - 1], encoders, layout) {
                Some(last) => Some(prefix + last),
                None => None,
            },
            None => None,
        }
    }
}

/// Bytes of the row ids in a row-oriented layout: a compact list in layouts
/// with compact row ids, else a count and eight bytes per id.
pub open spec fn row_ids_bytes(row_ids: Seq<u64>, layout: CompactBatchRecordLayout) -> Seq<u8> {
    if layout_version(layout) >= 3 {
        compact_u64_vec_bytes(row_ids)
    } else {
        u64_vec_bytes(row_ids)
    }
}

/// Bytes of a typed record batch section in a row-oriented layout: the magic,
/// the field count and fields, the row ids, the record count, then each record.
/// There are none for the columnar layout, when the schema and the encoders
/// differ in length, or when a record does not fit.
pub open spec fn row_section_bytes(
    snapshot: FSERecordBatchArchiveSnapshot,
    encoders: Seq<FSEFieldEncoderMetadata>,
    layout: CompactBatchRecordLayout,
) -> Option<Seq<u8>> {
    let fields = snapshot.schema_fields@;
    let records = snapshot.records@;
    if layout == CompactBatchRecordLayout::ColumnarCompactValues || fields.len() != encoders.len() {
        None
    } else {
        match row_records_bytes(records, encoders, layout, records.len()) {
            Some(body) => Some(
                section_magic(layout_version(layout)) + spec_u64_to_le_bytes(fields.len() as u64)
                    + compact_batch_fields_bytes(fields) + row_ids_bytes(snapshot.row_ids@, layout)
                    + spec_u64_to_le_bytes(records.len() as u64) + body,
            ),
            None => None,
        }
    }
}

/// A signed value in a row-oriented layout, as a reader takes it: zig-zag
/// variable-length from the layout with compact signed values on, else eight
/// little-endian bytes.
pub open spec fn row_i64_read(chunk: Seq<u8>, value: i64, layout: CompactBatchRecordLayout) -> bool {
    if layout_version(layout) >= 4 {
        zig_zag_chunk_read(chunk, value)
    } else {
        chunk == spec_u64_to_le_bytes(value as u64)
    }
}

/// Width of a category code in a row-oriented layout.
pub open spec fn row_code_width(category_count: nat, layout: CompactBatchRecordLayout) -> nat {
    if layout == CompactBatchRecordLayout::LegacyValueCount {
        8
    } else {
        category_code_width(category_count)
    }
}

/// The category code stored at the start of `bytes` in a row-oriented layout.
pub open spec fn row_code_at(bytes: Seq<u8>, category_count: nat, layout: CompactBatchRecordLayout) -> u64 {
    if layout == CompactBatchRecordLayout::LegacyValueCount {
        spec_u64_from_le_bytes(bytes.subrange(0, 8))
    } else {
        category_code_at(bytes, category_count)
    }
}

/// The bytes are one tagged value of field `field_index` in a row-oriented
/// layout, as a reader takes it: the value's tag, then its payload.
#[verifier::opaque]
pub open spec fn row_value_read(
    chunk: Seq<u8>,
    encoders: Seq<FSEFieldEncoderMetadata>,
    field_index: int,
    layout: CompactBatchRecordLayout,
    value: FSEValueArchiveRecord,
) -> bool {
    let payload = chunk.subrange(1, chunk.len() as int);
    &&& chunk.len() >= 1
    &&& chunk[0] == compact_value_tag(value)
    &&& match value {
        FSEValueArchiveRecord::Null => payload.len() == 0,
        FSEValueArchiveRecord::Integer(v) => row_i64_read(payload, v, layout),
        FSEValueArchiveRecord::Float(bits) => payload == spec_u64_to_le_bytes(bits),
        FSEValueArchiveRecord::Text(text) => payload == string_field_bytes(text@),
        FSEValueArchiveRecord::Boolean(flag) => payload == seq![bool_byte(flag)],
        FSEValueArchiveRecord::TimestampMillis(v) => row_i64_read(payload, v, layout),
        FSEValueArchiveRecord::Category(label) => {
            &&& 0 <= field_index < encoders.len()
            &&& encoders[field_index] matches FSEFieldEncoderMetadata::CategoryDictionary { categories }
            &&& payload.len() == row_code_width(categories@.len(), layout)
            &&& row_code_at(payload, categories@.len(), layout) < categories@.len()
            &&& label@ == categories@[row_code_at(payload, categories@.len(), layout) as int]@
        },
    }
}

/// The bytes are a record in a row-oriented layout, as a reader takes it: in
/// the oldest layout its value count and values, in the others one value per
/// field encoder.
#[verifier::opaque]
pub open spec fn row_record_read(
    chunk: Seq<u8>,
    encoders: Seq<FSEFieldEncoderMetadata>,
    layout: CompactBatchRecordLayout,
    values: Seq<FSEValueArchiveRecord>,
) -> bool {
    exists|pieces: Seq<Seq<u8>>|
        #![trigger joined(pieces)]
        {
            &&& pieces.len() == values.len()
            &&& if layout == CompactBatchRecordLayout::LegacyValueCount {
                chunk == spec_u64_to_le_bytes(values.len() as u64) + joined(pieces)
            } else {
                values.len() == encoders.len() && chunk == joined(pieces)
            }
            &&& forall|i: int|
                0 <= i < pieces.len() ==> row_value_read(#[trigger] pieces[i], encoders, i, layout, values[i])
        }
}

/// The bytes are the row ids in a row-oriented layout, as a reader takes them.
pub open spec fn row_ids_read(chunk: Seq<u8>, row_ids: Seq<u64>, layout: CompactBatchRecordLayout) -> bool {
    if layout_version(layout) >= 3 {
        compact_u64_vec_read(chunk, row_ids)
    } else {
        chunk == u64_vec_bytes(row_ids)
    }
}

/// The bytes are a section in a row-oriented layout that a reader takes as
/// `snapshot`: eight leading bytes, the field count and fields, the row ids,
/// the record count, then each record.
#[verifier::opaque]
pub open spec fn row_section_read(
    bytes: Seq<u8>,
    encoders: Seq<FSEFieldEncoderMetadata>,
    layout: CompactBatchRecordLayout,
    snapshot: FSERecordBatchArchiveSnapshot,
) -> bool {
    let fields = snapshot.schema_fields@;
    let records = snapshot.records@;
    &&& fields.len() == encoders.len()
    &&& bytes.len() >= 8
    &&& exists|rows: Seq<u8>, pieces: Seq<Seq<u8>>|
        #![trigger row_ids_read(rows, snapshot.row_ids@, layout), joined(pieces)]
        {
            &&& bytes.subrange(8, bytes.len() as int) == spec_u64_to_le_bytes(fields.len() as u64)
                + compact_batch_fields_bytes(fields) + rows + spec_u64_to_le_bytes(records.len() as u64)
                + joined(pieces)
            &&& row_ids_read(rows, snapshot.row_ids@, layout)
            &&& pieces.len() == records.len()
            &&& forall|r: int|
                0 <= r < pieces.len() ==> row_record_read(#[trigger] pieces[r], encoders, layout, records[r].values@)
        }
}

/// Every count of a batch fits in `usize`: fields, row ids, records and the
/// values of each record.
pub open spec fn row_counts_fit(snapshot: FSERecordBatchArchiveSnapshot) -> bool {
    &&& snapshot_counts_fit(snapshot)
    &&& snapshot.row_ids@.len() <= usize::MAX
    &&& forall|r: int|
        0 <= r < snapshot.records@.len() ==> #[trigger] snapshot.records@[r].values@.len() <= usize::MAX
}

/// Returns whether `bytes` start with the eight bytes of `magic`.
pub fn starts_with_magic(bytes: &[u8], magic: &[u8; 8]) -> (found: bool)
    ensures
        found == (bytes@.len() >= 8 && bytes@.subrange(0, 8) == magic@),
{
    if bytes.len() < 8 {
        return false;
    }
    let mut index: usize = 0;
    while index < 8
        invariant
            bytes@.len() >= 8,
            index <= 8,
            forall|i: int| 0 <= i < index ==> bytes@[i] == magic@[i],
        decreases 8 - index,
    {
        if bytes[index] != magic[index] {
            assert(bytes@.subrange(0, 8)[index as int] != magic@[index as int]);
            return false;
        }
        index = index + 1;
    }
    assert(bytes@.subrange(0, 8) =~= magic@);
    true
}

/// Reads a signed value: zig-zag variable-length in layouts with compact signed
/// values, else eight little-endian bytes.
fn read_layout_i64(
    cursor: &mut ByteCursor,
    field: &'static str,
    layout: CompactBatchRecordLayout,
    Ghost(target): Ghost<Option<i64>>,
) -> (result: Result<i64, FSETypedQueryIndexArchiveCodecError>)
    requires
        old(cursor).wf(),
        target matches Some(value) ==> starts_with(old(cursor).rest(), row_i64_bytes(value, layout)),
    ensures
        final(cursor).wf(),
        final(cursor).bytes@ == old(cursor).bytes@,
        target matches Some(value) ==> result == Ok::<i64, FSETypedQueryIndexArchiveCodecError>(value)
            && final(cursor).rest() == old(cursor).rest().subrange(
            row_i64_bytes(value, layout).len() as int,
            old(cursor).rest().len() as int,
        ),
        result matches Ok(value) ==> read_from_front(old(cursor).rest(), final(cursor).rest())
            && row_i64_read(taken(old(cursor).rest(), final(cursor).rest()), value, layout),
{
    if layout.uses_compact_signed_values() {
        read_compact_i64(cursor, field, Ghost(target))
    } else {
        proof {
            lemma_auto_spec_u64_to_from_le_bytes();
            if let Some(value) = target {
                assert(old(cursor).rest().subrange(0, 8) =~= spec_u64_to_le_bytes(value as u64));
            }
        }
        match cursor.read_u64() {
            Ok(raw) => {
                proof {
                    let start = old(cursor).rest();
                    assert(taken(start, cursor.rest()) =~= start.subrange(0, 8));
                    assert(start =~= taken(start, cursor.rest()) + cursor.rest());
                    assert(((raw as i64) as u64) == raw) by (bit_vector);
                    if let Some(value) = target {
                        assert(raw == value as u64);
                        assert((value as u64) as i64 == value) by (bit_vector);
                    }
                }
                Ok(raw as i64)
            },
            Err(error) => Err(lift(error, field)),
        }
    }
}

/// Reads one tagged value of field `field_index` in a row-oriented layout.
#[verifier::rlimit(60)]
fn read_compact_batch_value(
    cursor: &mut ByteCursor,
    field_index: usize,
    fields: &[FSEFieldEncoderMetadata],
    layout: CompactBatchRecordLayout,
    Ghost(target): Ghost<Option<FSEValueArchiveRecord>>,
) -> (result: Result<FSEValueArchiveRecord, FSETypedQueryIndexArchiveCodecError>)
    requires
        old(cursor).wf(),
        target matches Some(value) ==> (row_value_bytes(value, fields@, field_index as int, layout) matches Some(
            encoded,
        ) && starts_with(old(cursor).rest(), encoded)),
    ensures
        final(cursor).wf(),
        final(cursor).bytes@ == old(cursor).bytes@,
        result matches Ok(value) ==> old(cursor).rest().len() >= 1 && compact_value_tag(value)
            == old(cursor).rest()[0],
        result matches Ok(value) ==> read_from_front(old(cursor).rest(), final(cursor).rest())
            && row_value_read(
            taken(old(cursor).rest(), final(cursor).rest()),
            fields@,
            field_index as int,
            layout,
            value,
        ),
        result matches Ok(FSEValueArchiveRecord::Category(label)) ==> field_index < fields@.len()
            && (fields@[field_index as int] matches FSEFieldEncoderMetadata::CategoryDictionary {
            categories,
        } && exists|code: int| 0 <= code < categories@.len() && #[trigger] categories@[code] == label),
        old(cursor).rest().len() >= 1 && old(cursor).rest()[0] > 6 ==> result == Err::<
            FSEValueArchiveRecord,
            FSETypedQueryIndexArchiveCodecError,
        >(
            FSETypedQueryIndexArchiveCodecError::InvalidCompactBatchValueTag {
                field: "typed_index.record_batch.record.value",
                tag: old(cursor).rest()[0],
            },
        ),
        old(cursor).rest().len() >= 1 && old(cursor).rest()[0] == 6 && (field_index >= fields@.len()
            || !(fields@[field_index as int] is CategoryDictionary)) ==> result == Err::<
            FSEValueArchiveRecord,
            FSETypedQueryIndexArchiveCodecError,
        >(FSETypedQueryIndexArchiveCodecError::CompactBatchCategoryEncoderMismatch { field_index }),
        target matches Some(value) ==> (result matches Ok(read) && value_matches(read, value)
            && final(cursor).rest() == old(cursor).rest().subrange(
            row_value_bytes(value, fields@, field_index as int, layout)->Some_0.len() as int,
            old(cursor).rest().len() as int,
        )),
        old(cursor).rest().len() >= 1 && old(cursor).rest()[0] == 6 && field_index < fields@.len() && (
        fields@[field_index as int] matches FSEFieldEncoderMetadata::CategoryDictionary { categories }
            && category_read_outcome(
            old(cursor).rest().subrange(1, old(cursor).rest().len() as int),
            categories@,
            field_index,
            layout == CompactBatchRecordLayout::LegacyValueCount,
            result,
        )) || !(old(cursor).rest().len() >= 1 && old(cursor).rest()[0] == 6 && field_index
            < fields@.len() && fields@[field_index as int] is CategoryDictionary),
{
    let field = "typed_index.record_batch.record.value";
    let ghost start = cursor.rest();
    let ghost has_target = target is Some;
    let ghost expected: FSEValueArchiveRecord = match target {
        Some(value) => value,
        None => FSEValueArchiveRecord::Null,
    };
    let ghost encoded = row_value_bytes(expected, fields@, field_index as int, layout)->Some_0;
    let ghost payload = encoded.subrange(1, encoded.len() as int);
    proof {
        lemma_auto_spec_u64_to_from_le_bytes();
        if has_target {
            assert(encoded =~= seq![compact_value_tag(expected)] + payload);
            lemma_starts_with_split(start, seq![compact_value_tag(expected)], payload);
            assert(start[0] == start.subrange(0, 1)[0]);
        }
    }
    let tag = match cursor.read_u8() {
        Ok(tag) => tag,
        Err(error) => return Err(lift(error, field)),
    };
    let ghost after_tag = cursor.rest();
    proof {
        assert(after_tag =~= start.subrange(1, start.len() as int));
        if has_target {
            assert(after_tag =~= start.subrange(1, start.len() as int));
        }
    }
    if tag == 0 {
        proof {
            assert(after_tag =~= Seq::<u8>::empty() + cursor.rest());
            lemma_tagged_taken(start, after_tag, cursor.rest());
            assert(taken(after_tag, cursor.rest()) =~= Seq::<u8>::empty());
            reveal(row_value_read);
            if has_target {
                assert(cursor.rest() =~= start.subrange(encoded.len() as int, start.len() as int));
            }
        }
        Ok(FSEValueArchiveRecord::Null)
    } else if tag == 1 {
        let ghost goal: Option<i64> = match expected {
            FSEValueArchiveRecord::Integer(v) => if has_target { Some(v) } else { None },
            _ => None,
        };
        proof {
            if has_target {
                assert(payload =~= row_i64_bytes(expected->Integer_0, layout));
            }
        }
        match read_layout_i64(cursor, field, layout, Ghost(goal)) {
            Ok(value) => {
                proof {
                    if has_target {
                        assert(cursor.rest() =~= start.subrange(encoded.len() as int, start.len() as int));
                    }
                }
                proof {
                    lemma_tagged_taken(start, after_tag, cursor.rest());
                    reveal(row_value_read);
                }
                Ok(FSEValueArchiveRecord::Integer(value))
            },
            Err(error) => Err(error),
        }
    } else if tag == 2 {
        proof {
            if has_target {
                assert(payload =~= spec_u64_to_le_bytes(expected->Float_0));
                assert(after_tag.subrange(0, 8) =~= payload);
            }
        }
        match cursor.read_u64() {
            Ok(bits) => {
                proof {
                    if has_target {
                        assert(cursor.rest() =~= start.subrange(encoded.len() as int, start.len() as int));
                    }
                }
                proof {
                    assert(taken(after_tag, cursor.rest()) =~= after_tag.subrange(0, 8));
                    assert(after_tag =~= taken(after_tag, cursor.rest()) + cursor.rest());
                    lemma_tagged_taken(start, after_tag, cursor.rest());
                    reveal(row_value_read);
                }
                Ok(FSEValueArchiveRecord::Float(bits))
            },
            Err(error) => Err(lift(error, field)),
        }
    } else if tag == 3 {
        let ghost goal: Option<Seq<char>> = match expected {
            FSEValueArchiveRecord::Text(text) => if has_target { Some(text@) } else { None },
            _ => None,
        };
        proof {
            if has_target {
                assert(payload =~= string_field_bytes(expected->Text_0@));
            }
        }
        match read_text(cursor, field, Ghost(goal)) {
            Ok(text) => {
                proof {
                    if has_target {
                        assert(cursor.rest() =~= start.subrange(encoded.len() as int, start.len() as int));
                    }
                }
                proof {
                    assert(taken(after_tag, cursor.rest()) =~= string_field_bytes(text@));
                    lemma_tagged_taken(start, after_tag, cursor.rest());
                    reveal(row_value_read);
                }
                Ok(FSEValueArchiveRecord::Text(text))
            },
            Err(error) => Err(error),
        }
    } else if tag == 4 {
        proof {
            if has_target {
                assert(payload =~= seq![bool_byte(expected->Boolean_0)]);
                assert(after_tag[0] == payload[0]);
            }
        }
        match read_compact_bool(cursor, field) {
            Ok(flag) => {
                proof {
                    if has_target {
                        assert(cursor.rest() =~= start.subrange(encoded.len() as int, start.len() as int));
                    }
                }
                proof {
                    assert(taken(after_tag, cursor.rest()) =~= seq![bool_byte(flag)]);
                    lemma_tagged_taken(start, after_tag, cursor.rest());
                    reveal(row_value_read);
                }
                Ok(FSEValueArchiveRecord::Boolean(flag))
            },
            Err(error) => Err(error),
        }
    } else if tag == 5 {
        let ghost goal: Option<i64> = match expected {
            FSEValueArchiveRecord::TimestampMillis(v) => if has_target { Some(v) } else { None },
            _ => None,
        };
        proof {
            if has_target {
                assert(payload =~= row_i64_bytes(expected->TimestampMillis_0, layout));
            }
        }
        match read_layout_i64(cursor, field, layout, Ghost(goal)) {
            Ok(value) => {
                proof {
                    if has_target {
                        assert(cursor.rest() =~= start.subrange(encoded.len() as int, start.len() as int));
                    }
                }
                proof {
                    lemma_tagged_taken(start, after_tag, cursor.rest());
                    reveal(row_value_read);
                }
                Ok(FSEValueArchiveRecord::TimestampMillis(value))
            },
            Err(error) => Err(error),
        }
    } else if tag == 6 {
        if field_index >= fields.len() {
            return Err(
                FSETypedQueryIndexArchiveCodecError::CompactBatchCategoryEncoderMismatch {
                    field_index,
                },
            );
        }
        match &fields[field_index] {
            FSEFieldEncoderMetadata::CategoryDictionary { categories } => {
                let ghost position: int = match expected {
                    FSEValueArchiveRecord::Category(label) => match first_label_position(
                        categories@,
                        label@,
                        0,
                    ) {
                        Some(p) => p,
                        None => 0,
                    },
                    _ => 0,
                };
                proof {
                    if has_target {
                        let label = expected->Category_0;
                        lemma_first_label_position_range(categories@, label@, 0);
                        assert(first_label_position(categories@, label@, 0) == Some(position));
                        assert(categories@[position]@ == label@);
                        if layout == CompactBatchRecordLayout::LegacyValueCount {
                            assert(payload =~= spec_u64_to_le_bytes(position as u64));
                        } else {
                            assert(payload =~= category_code_bytes(categories@.len(), position as u64));
                        }
                    }
                }
                let code = if layout == CompactBatchRecordLayout::LegacyValueCount {
                    proof {
                        if has_target {
                            assert(after_tag.subrange(0, 8) =~= payload);
                        }
                    }
                    match cursor.read_u64() {
                        Ok(code) => code,
                        Err(error) => return Err(lift(error, field)),
                    }
                } else {
                    match read_compact_category_code(
                        cursor,
                        field,
                        categories.len(),
                        Ghost(if has_target { Some(position as u64) } else { None }),
                    ) {
                        Ok(code) => code,
                        Err(error) => return Err(error),
                    }
                };
                if code >= categories.len() as u64 {
                    return Err(
                        FSETypedQueryIndexArchiveCodecError::CompactBatchCategoryCodeOutOfRange {
                            field_index,
                            code,
                            category_count: categories.len(),
                        },
                    );
                }
                let label = categories[code as usize].clone();
                proof {
                    assert(categories@[code as int] == label);
                    let count = categories@.len();
                    let width = row_code_width(count, layout);
                    let payload_read = taken(after_tag, cursor.rest());
                    assert(payload_read =~= after_tag.subrange(0, width as int));
                    assert(after_tag =~= payload_read + cursor.rest());
                    if layout == CompactBatchRecordLayout::LegacyValueCount {
                        assert(payload_read.subrange(0, 8) =~= after_tag.subrange(0, 8));
                    } else if count <= 0x100 {
                        assert(payload_read[0] == after_tag[0]);
                    } else if count <= 0x1_0000 {
                        assert(payload_read.subrange(0, 2) =~= after_tag.subrange(0, 2));
                    } else if count <= 0x1_0000_0000 {
                        assert(payload_read.subrange(0, 4) =~= after_tag.subrange(0, 4));
                    } else {
                        assert(payload_read.subrange(0, 8) =~= after_tag.subrange(0, 8));
                    }
                    assert(row_code_at(payload_read, count, layout) == code);
                    lemma_tagged_taken(start, after_tag, cursor.rest());
                    reveal(row_value_read);
                    if has_target {
                        assert(code == position);
                        assert(cursor.rest() =~= start.subrange(encoded.len() as int, start.len() as int));
                    }
                }
                Ok(FSEValueArchiveRecord::Category(label))
            },
            _ => Err(
                FSETypedQueryIndexArchiveCodecError::CompactBatchCategoryEncoderMismatch {
                    field_index,
                },
            ),
        }
    } else {
        Err(FSETypedQueryIndexArchiveCodecError::InvalidCompactBatchValueTag { field, tag })
    }
}

proof fn lemma_row_section_assembled(
    bytes: Seq<u8>,
    encoders: Seq<FSEFieldEncoderMetadata>,
    layout: CompactBatchRecordLayout,
    snapshot: FSERecordBatchArchiveSnapshot,
    at_field_count: Seq<u8>,
    at_fields: Seq<u8>,
    at_rows: Seq<u8>,
    rows: Seq<u8>,
    at_record_count: Seq<u8>,
    body: Seq<u8>,
    pieces: Seq<Seq<u8>>,
)
    requires
        bytes.len() >= 8,
        at_field_count == bytes.subrange(8, bytes.len() as int),
        at_field_count.len() >= 8,
        at_fields == at_field_count.subrange(8, at_field_count.len() as int),
        le_u64(at_field_count) == snapshot.schema_fields@.len(),
        at_fields == compact_batch_fields_bytes(snapshot.schema_fields@) + at_rows,
        read_from_front(at_rows, at_record_count),
        rows == taken(at_rows, at_record_count),
        row_ids_read(rows, snapshot.row_ids@, layout),
        at_record_count.len() >= 8,
        body == at_record_count.subrange(8, at_record_count.len() as int),
        le_u64(at_record_count) == snapshot.records@.len(),
        body == joined(pieces),
        snapshot.schema_fields@.len() == encoders.len(),
        pieces.len() == snapshot.records@.len(),
        forall|r: int|
            0 <= r < pieces.len() ==> row_record_read(#[trigger] pieces[r], encoders, layout, snapshot.records@[r].values@),
    ensures
        row_section_read(bytes, encoders, layout, snapshot),
{
    lemma_auto_spec_u64_to_from_le_bytes();
    let fields = snapshot.schema_fields@;
    assert(at_field_count.subrange(0, 8) =~= spec_u64_to_le_bytes(fields.len() as u64));
    assert(at_record_count.subrange(0, 8) =~= spec_u64_to_le_bytes(snapshot.records@.len() as u64));
    assert(at_field_count =~= at_field_count.subrange(0, 8) + at_fields);
    assert(at_record_count =~= at_record_count.subrange(0, 8) + body);
    assert(at_rows =~= rows + at_record_count);
    assert(bytes.subrange(8, bytes.len() as int) =~= spec_u64_to_le_bytes(fields.len() as u64)
        + compact_batch_fields_bytes(fields) + rows + spec_u64_to_le_bytes(snapshot.records@.len() as u64)
        + joined(pieces));
    reveal(row_section_read);
}

proof fn lemma_tagged_taken(start: Seq<u8>, after_tag: Seq<u8>, rest: Seq<u8>)
    requires
        start.len() >= 1,
        after_tag == start.subrange(1, start.len() as int),
        read_from_front(after_tag, rest),
    ensures
        read_from_front(start, rest),
        taken(start, rest).len() >= 1,
        taken(start, rest)[0] == start[0],
        taken(start, rest).subrange(1, taken(start, rest).len() as int) == taken(after_tag, rest),
{
    assert(start =~= seq![start[0]] + after_tag);
    assert(start =~= seq![start[0]] + taken(after_tag, rest) + rest);
    assert(taken(start, rest) =~= seq![start[0]] + taken(after_tag, rest));
    assert(start =~= taken(start, rest) + rest);
    assert(taken(start, rest).subrange(1, taken(start, rest).len() as int) =~= taken(after_tag, rest));
}

proof fn lemma_row_values_prefix(
    values: Seq<FSEValueArchiveRecord>,
    encoders: Seq<FSEFieldEncoderMetadata>,
    layout: CompactBatchRecordLayout,
    count: nat,
    total: nat,
)
    requires
        count <= total,
        row_values_bytes(values, encoders, layout, total) is Some,
    ensures
        row_values_bytes(values, encoders, layout, count) is Some,
        row_values_bytes(values, encoders, layout, count)->Some_0.len()
            <= row_values_bytes(values, encoders, layout, total)->Some_0.len(),
        row_values_bytes(values, encoders, layout, total)->Some_0.subrange(
            0,
            row_values_bytes(values, encoders, layout, count)->Some_0.len() as int,
        ) == row_values_bytes(values, encoders, layout, count)->Some_0,
    decreases total - count,
{
    if count < total {
        lemma_row_values_prefix(values, encoders, layout, count, (total - 1) as nat);
        let shorter = row_values_bytes(values, encoders, layout, (total - 1) as nat)->Some_0;
        let longer = row_values_bytes(values, encoders, layout, total)->Some_0;
        let part = row_values_bytes(values, encoders, layout, count)->Some_0;
        assert(longer.subrange(0, shorter.len() as int) =~= shorter);
        assert(longer.subrange(0, part.len() as int) =~= shorter.subrange(0, part.len() as int));
    } else {
        let whole = row_values_bytes(values, encoders, layout, total)->Some_0;
        assert(whole.subrange(0, whole.len() as int) =~= whole);
    }
}

/// Reads one record in a row-oriented layout.
fn read_compact_batch_record(
    cursor: &mut ByteCursor,
    fields: &[FSEFieldEncoderMetadata],
    layout: CompactBatchRecordLayout,
    Ghost(target): Ghost<Option<FSERecordArchiveRecord>>,
) -> (result: Result<FSERecordArchiveRecord, FSETypedQueryIndexArchiveCodecError>)
    requires
        old(cursor).wf(),
        target matches Some(record) ==> record.values@.len() <= usize::MAX && (row_record_bytes(
            record,
            fields@,
            layout,
        ) matches Some(encoded) && starts_with(old(cursor).rest(), encoded)),
    ensures
        final(cursor).wf(),
        final(cursor).bytes@ == old(cursor).bytes@,
        layout != CompactBatchRecordLayout::LegacyValueCount ==> (result matches Ok(record)
            ==> record.values@.len() == fields@.len()),
        result matches Ok(record) ==> read_from_front(old(cursor).rest(), final(cursor).rest())
            && row_record_read(taken(old(cursor).rest(), final(cursor).rest()), fields@, layout, record.values@),
        target matches Some(record) ==> (result matches Ok(read) && read.values@.len()
            == record.values@.len() && (forall|i: int|
            0 <= i < record.values@.len() ==> value_matches(
                #[trigger] read.values@[i],
                record.values@[i],
            )) && final(cursor).rest() == old(cursor).rest().subrange(
            row_record_bytes(record, fields@, layout)->Some_0.len() as int,
            old(cursor).rest().len() as int,
        )),
{
    let ghost start = cursor.rest();
    let ghost has_target = target is Some;
    let ghost expected: Seq<FSEValueArchiveRecord> = match target {
        Some(record) => record.values@,
        None => Seq::empty(),
    };
    let ghost encoded = match target {
        Some(record) => row_record_bytes(record, fields@, layout)->Some_0,
        None => Seq::empty(),
    };
    let ghost full = row_values_bytes(expected, fields@, layout, expected.len())->Some_0;
    proof {
        lemma_auto_spec_u64_to_from_le_bytes();
        if has_target {
            assert(start.subrange(0, encoded.len() as int) == encoded);
        }
    }
    let value_count = if layout.uses_fixed_field_count() {
        fields.len()
    } else {
        proof {
            if has_target {
                assert(encoded =~= spec_u64_to_le_bytes(expected.len() as u64) + full);
                assert(start.subrange(0, 8) =~= encoded.subrange(0, 8));
                assert(encoded.subrange(0, 8) =~= spec_u64_to_le_bytes(expected.len() as u64));
            }
        }
        match cursor.read_len() {
            Ok(count) => count,
            Err(error) => return Err(lift(error, "typed_index.record_batch.record.value_count")),
        }
    };
    let ghost body = cursor.rest();
    let ghost skipped: int = start.len() - body.len();
    proof {
        if has_target {
            if layout == CompactBatchRecordLayout::LegacyValueCount {
                assert(body =~= start.subrange(8, start.len() as int));
                assert(body.subrange(0, full.len() as int) =~= encoded.subrange(8, encoded.len() as int));
                assert(encoded.subrange(8, encoded.len() as int) =~= full);
            } else {
                assert(expected.len() == fields@.len());
                assert(encoded == full);
                assert(body =~= start);
            }
            assert(full.len() <= body.len());
            assert(body.subrange(0, full.len() as int) == full);
            assert(value_count == expected.len());
            assert(row_values_bytes(expected, fields@, layout, 0) == Some(Seq::<u8>::empty()));
            assert(body.subrange(0, body.len() as int) =~= body);
        }
    }
    let ghost mut position: int = 0;
    let ghost mut pieces: Seq<Seq<u8>> = Seq::empty();
    proof {
        assert(body.subrange(0, 0) =~= Seq::<u8>::empty());
        assert(body.subrange(0, body.len() as int) =~= body);
        if layout == CompactBatchRecordLayout::LegacyValueCount {
            assert(start =~= start.subrange(0, 8) + body);
            assert(start.subrange(0, 8) =~= spec_u64_to_le_bytes(value_count as u64));
        } else {
            assert(body =~= start);
            assert(value_count == fields@.len());
        }
    }
    let mut values: Vec<FSEValueArchiveRecord> = Vec::with_capacity(value_count);
    let mut field_index: usize = 0;
    while field_index < value_count
        invariant
            cursor.wf(),
            cursor.bytes@ == old(cursor).bytes@,
            0 <= position <= body.len(),
            cursor.rest() == body.subrange(position, body.len() as int),
            pieces.len() == field_index,
            body.subrange(0, position) == joined(pieces),
            forall|i: int|
                0 <= i < field_index ==> row_value_read(#[trigger] pieces[i], fields@, i, layout, values@[i]),
            field_index <= value_count,
            values@.len() == field_index,
            has_target == (target is Some),
            has_target ==> expected == target->Some_0.values@,
            has_target ==> {
                &&& value_count == expected.len()
                &&& row_values_bytes(expected, fields@, layout, expected.len()) is Some
                &&& full == row_values_bytes(expected, fields@, layout, expected.len())->Some_0
                &&& full.len() <= body.len()
                &&& body.subrange(0, full.len() as int) == full
                &&& row_values_bytes(expected, fields@, layout, field_index as nat) is Some
                &&& cursor.rest() == body.subrange(
                    row_values_bytes(expected, fields@, layout, field_index as nat)->Some_0.len() as int,
                    body.len() as int,
                )
                &&& forall|i: int|
                    0 <= i < field_index ==> value_matches(#[trigger] values@[i], expected[i])
            },
        decreases value_count - field_index,
    {
        let ghost before = cursor.rest();
        let ghost done = row_values_bytes(expected, fields@, layout, field_index as nat)->Some_0;
        let ghost value_target: Option<FSEValueArchiveRecord> = if has_target {
            Some(expected[field_index as int])
        } else {
            None
        };
        proof {
            if has_target {
                lemma_row_values_prefix(expected, fields@, layout, (field_index + 1) as nat, expected.len());
                lemma_row_values_prefix(expected, fields@, layout, field_index as nat, expected.len());
                let piece = row_value_bytes(expected[field_index as int], fields@, field_index as int, layout)->Some_0;
                let next = row_values_bytes(expected, fields@, layout, (field_index + 1) as nat)->Some_0;
                assert(next == done + piece);
                assert(full.subrange(0, next.len() as int) == next);
                assert(body.subrange(0, next.len() as int) =~= body.subrange(0, full.len() as int).subrange(
                    0,
                    next.len() as int,
                ));
                assert(before.subrange(0, piece.len() as int) =~= next.subrange(
                    done.len() as int,
                    next.len() as int,
                ));
                assert(next.subrange(done.len() as int, next.len() as int) =~= piece);
            }
        }
        let ghost at = cursor.rest();
        let value = match read_compact_batch_value(cursor, field_index, fields, layout, Ghost(value_target)) {
            Ok(value) => value,
            Err(error) => return Err(error),
        };
        proof {
            if has_target {
                let next = row_values_bytes(expected, fields@, layout, (field_index + 1) as nat)->Some_0;
                assert(cursor.rest() =~= body.subrange(next.len() as int, body.len() as int));
            }
        }
        proof {
            let next_position = position + (at.len() - cursor.rest().len());
            let piece = taken(at, cursor.rest());
            assert(at == piece + cursor.rest());
            assert(piece =~= body.subrange(position, next_position));
            assert(at.subrange(piece.len() as int, at.len() as int) =~= body.subrange(
                next_position,
                body.len() as int,
            ));
            assert(cursor.rest() =~= at.subrange(piece.len() as int, at.len() as int));
            assert(body.subrange(0, next_position) =~= body.subrange(0, position) + piece);
            lemma_joined_push(pieces, piece);
            pieces = pieces.push(piece);
            position = next_position;
        }
        values.push(value);
        field_index = field_index + 1;
    }
    proof {
        assert(body =~= body.subrange(0, position) + cursor.rest());
        if layout == CompactBatchRecordLayout::LegacyValueCount {
            assert(taken(start, cursor.rest()) =~= spec_u64_to_le_bytes(value_count as u64) + joined(pieces));
        } else {
            assert(taken(start, cursor.rest()) =~= joined(pieces));
        }
        assert(start =~= taken(start, cursor.rest()) + cursor.rest());
        reveal(row_record_read);
        if has_target {
            assert(cursor.rest() =~= start.subrange(encoded.len() as int, start.len() as int));
        }
    }
    Ok(FSERecordArchiveRecord { values })
}

/// Reads a list of `u64` values stored as a count and eight bytes per value.
fn read_raw_u64_vec(cursor: &mut ByteCursor, field: &'static str, Ghost(target): Ghost<Option<Seq<u64>>>) -> (result: Result<
    Vec<u64>,
    FSETypedQueryIndexArchiveCodecError,
>)
    requires
        old(cursor).wf(),
        target matches Some(values) ==> values.len() <= usize::MAX && starts_with(
            old(cursor).rest(),
            u64_vec_bytes(values),
        ),
    ensures
        final(cursor).wf(),
        final(cursor).bytes@ == old(cursor).bytes@,
        target matches Some(values) ==> (result matches Ok(read) && read@ == values)
            && final(cursor).rest() == old(cursor).rest().subrange(
            u64_vec_bytes(values).len() as int,
            old(cursor).rest().len() as int,
        ),
        result matches Ok(read) ==> old(cursor).rest() == u64_vec_bytes(read@) + final(cursor).rest(),
{
    let ghost has_target = target is Some;
    let ghost values: Seq<u64> = match target {
        Some(values) => values,
        None => Seq::empty(),
    };
    let ghost start = cursor.rest();
    let ghost encoded = u64_vec_bytes(values);
    proof {
        lemma_auto_spec_u64_to_from_le_bytes();
        lemma_u64s_le_bytes(values);
        if has_target {
            assert(start.subrange(0, encoded.len() as int) == encoded);
            assert(start.subrange(0, 8) =~= encoded.subrange(0, 8));
            assert(encoded.subrange(0, 8) =~= spec_u64_to_le_bytes(values.len() as u64));
        }
    }
    let length = match cursor.read_len() {
        Ok(length) => length,
        Err(error) => return Err(lift(error, field)),
    };
    let ghost body = cursor.rest();
    proof {
        if has_target {
            let chunks = u64s_le_bytes(values);
            assert(body =~= start.subrange(8, start.len() as int));
            assert(body.subrange(0, chunks.len() as int) =~= encoded.subrange(8, encoded.len() as int));
            assert(encoded.subrange(8, encoded.len() as int) =~= chunks);
            assert forall|i: int| 0 <= i < values.len() implies #[trigger] body.subrange(
                8 * i,
                8 * i + 8,
            ) == spec_u64_to_le_bytes(values[i]) by {
                assert(body.subrange(8 * i, 8 * i + 8) =~= body.subrange(0, chunks.len() as int).subrange(
                    8 * i,
                    8 * i + 8,
                ));
            }
            assert(values.subrange(0, 0) =~= Seq::<u64>::empty());
        }
        assert(body.subrange(0, body.len() as int) =~= body);
    }
    let mut read: Vec<u64> = Vec::with_capacity(length);
    let mut index: usize = 0;
    while index < length
        invariant
            cursor.wf(),
            cursor.bytes@ == old(cursor).bytes@,
            has_target == (target is Some),
            index <= length,
            read@.len() == index,
            cursor.rest() == body.subrange(8 * index, body.len() as int),
            8 * index <= body.len(),
            body.subrange(0, 8 * index) == u64s_le_bytes(read@),
            has_target ==> {
                &&& length == values.len()
                &&& body.len() >= 8 * length
                &&& read@ == values.subrange(0, index as int)
                &&& forall|i: int|
                    0 <= i < values.len() ==> #[trigger] body.subrange(8 * i, 8 * i + 8)
                        == spec_u64_to_le_bytes(values[i])
            },
        decreases length - index,
    {
        let ghost before = cursor.rest();
        proof {
            lemma_auto_spec_u64_to_from_le_bytes();
            if has_target {
                assert(before.subrange(0, 8) =~= body.subrange(8 * index, 8 * index + 8));
                assert(spec_u64_from_le_bytes(before.subrange(0, 8)) == values[index as int]);
            }
        }
        let value = match cursor.read_u64() {
            Ok(value) => value,
            Err(error) => return Err(lift(error, field)),
        };
        proof {
            assert(cursor.rest() =~= body.subrange(8 * index + 8, body.len() as int));
            assert(before.subrange(0, 8) =~= body.subrange(8 * index, 8 * index + 8));
            assert(body.subrange(0, 8 * index + 8) =~= body.subrange(0, 8 * index) + body.subrange(
                8 * index,
                8 * index + 8,
            ));
        }
        let ghost earlier = read@;
        read.push(value);
        proof {
            assert(read@.drop_last() =~= earlier);
        }
        index = index + 1;
        proof {
            if has_target {
                assert(read@ =~= values.subrange(0, index as int));
            }
        }
    }
    proof {
        assert(start =~= start.subrange(0, 8) + body);
        assert(body =~= body.subrange(0, 8 * length) + cursor.rest());
        assert(start.subrange(0, 8) =~= spec_u64_to_le_bytes(length as u64));
        assert(start =~= u64_vec_bytes(read@) + cursor.rest());
        if has_target {
            assert(read@ =~= values);
            assert(cursor.rest() =~= start.subrange(encoded.len() as int, start.len() as int));
        }
    }
    Ok(read)
}

/// Reads row ids in the form that the layout uses.
fn read_row_id_vec(
    cursor: &mut ByteCursor,
    field: &'static str,
    layout: CompactBatchRecordLayout,
    Ghost(target): Ghost<Option<Seq<u64>>>,
) -> (result: Result<Vec<u64>, FSETypedQueryIndexArchiveCodecError>)
    requires
        old(cursor).wf(),
        target matches Some(values) ==> values.len() <= usize::MAX && starts_with(
            old(cursor).rest(),
            row_ids_bytes(values, layout),
        ),
    ensures
        final(cursor).wf(),
        final(cursor).bytes@ == old(cursor).bytes@,
        target matches Some(values) ==> (result matches Ok(read) && read@ == values)
            && final(cursor).rest() == old(cursor).rest().subrange(
            row_ids_bytes(values, layout).len() as int,
            old(cursor).rest().len() as int,
        ),
        result matches Ok(read) ==> read_from_front(old(cursor).rest(), final(cursor).rest())
            && row_ids_read(taken(old(cursor).rest(), final(cursor).rest()), read@, layout),
{
    if layout.uses_compact_row_ids() {
        return read_compact_u64_vec(cursor, field, Ghost(target));
    }
    let ghost start = cursor.rest();
    let result = read_raw_u64_vec(cursor, field, Ghost(target));
    proof {
        if result is Ok {
            assert(taken(start, cursor.rest()) =~= u64_vec_bytes(result->Ok_0@));
        }
    }
    result
}

/// Whether `bytes` start with the magic of the section layout numbered `version`.
pub open spec fn starts_with_section(bytes: Seq<u8>, version: u8) -> bool {
    bytes.len() >= 8 && bytes.subrange(0, 8) == section_magic(version)
}

/// The bytes are a typed record batch section that a reader takes as
/// `snapshot`, in the layout that their magic names, or in the typed record
/// batch layout when they start with no section magic.
pub open spec fn batch_section_read(
    bytes: Seq<u8>,
    encoders: Seq<FSEFieldEncoderMetadata>,
    snapshot: FSERecordBatchArchiveSnapshot,
) -> bool {
    if starts_with_section(bytes, 5) {
        columnar_section_read(bytes, encoders, snapshot)
    } else if starts_with_section(bytes, 1) {
        row_section_read(bytes, encoders, CompactBatchRecordLayout::LegacyValueCount, snapshot)
    } else if starts_with_section(bytes, 2) {
        row_section_read(bytes, encoders, CompactBatchRecordLayout::FixedFieldCountRawRowIds, snapshot)
    } else if starts_with_section(bytes, 3) {
        row_section_read(bytes, encoders, CompactBatchRecordLayout::FixedFieldCountCompactRowIds, snapshot)
    } else if starts_with_section(bytes, 4) {
        row_section_read(
            bytes,
            encoders,
            CompactBatchRecordLayout::FixedFieldCountCompactRowIdsCompactSignedValues,
            snapshot,
        )
    } else {
        typed_batch_bytes(snapshot) == bytes
    }
}

/// What decoding bytes in the typed record batch layout gives: bytes that some
/// batch encodes to decode to a batch that encodes to the same bytes, a batch
/// is returned only when the bytes are its layout, and every failure is a typed
/// record batch codec error.
pub open spec fn typed_batch_fallback(
    bytes: Seq<u8>,
    result: Result<FSERecordBatchArchiveSnapshot, FSETypedQueryIndexArchiveCodecError>,
) -> bool {
    &&& forall|snapshot: FSERecordBatchArchiveSnapshot|
        snapshot.schema_fields@.len() <= usize::MAX && snapshot.records@.len() <= usize::MAX
            && #[trigger] typed_batch_bytes(snapshot) == bytes ==> (result matches Ok(decoded)
            && typed_batch_bytes(decoded) == bytes)
    &&& result matches Ok(decoded) ==> typed_batch_bytes(decoded) == bytes
    &&& result matches Err(error) ==> error is BatchCodec
}

/// What decoding bytes that start with the magic of a row-oriented layout gives:
/// a batch with one schema field per field encoder (and, but in the oldest
/// layout, one value per field in each record) that the bytes read as
/// (`row_section_read`), or the field-count mismatch error exactly when the
/// stored field count differs from the encoder count.
pub open spec fn compact_layout_outcome(
    bytes: Seq<u8>,
    encoders: Seq<FSEFieldEncoderMetadata>,
    record_layout: CompactBatchRecordLayout,
    result: Result<FSERecordBatchArchiveSnapshot, FSETypedQueryIndexArchiveCodecError>,
) -> bool {
    &&& result matches Ok(snapshot) ==> snapshot.schema_fields@.len() == encoders.len()
    &&& result matches Ok(snapshot) ==> row_section_read(bytes, encoders, record_layout, snapshot)
    &&& record_layout != CompactBatchRecordLayout::LegacyValueCount ==> (result matches Ok(snapshot)
        ==> records_have_field_count(snapshot))
    &&& bytes.len() >= 16 && le_u64(bytes.subrange(8, bytes.len() as int)) <= usize::MAX
        && le_u64(bytes.subrange(8, bytes.len() as int)) != encoders.len() ==> result
        == Err::<FSERecordBatchArchiveSnapshot, FSETypedQueryIndexArchiveCodecError>(
        FSETypedQueryIndexArchiveCodecError::CompactBatchEncoderFieldCountMismatch {
            schema_field_count: le_u64(bytes.subrange(8, bytes.len() as int)) as usize,
            encoder_field_count: encoders.len() as usize,
        },
    )
}

/// Decodes bytes in the typed record batch layout, mapping its errors.
fn decode_typed_batch_fallback(bytes: &[u8]) -> (result: Result<
    FSERecordBatchArchiveSnapshot,
    FSETypedQueryIndexArchiveCodecError,
>)
    ensures
        typed_batch_fallback(bytes@, result),
{
    match decode_typed_record_batch_archive_snapshot(bytes) {
        Ok(snapshot) => Ok(snapshot),
        Err(error) => Err(FSETypedQueryIndexArchiveCodecError::BatchCodec(error)),
    }
}

/// Bytes that some batch is laid out as in a row-oriented layout decode to a
/// batch with the same fields, row ids and values as such a batch.
pub open spec fn row_layout_round_trip(
    bytes: Seq<u8>,
    encoders: Seq<FSEFieldEncoderMetadata>,
    layout: CompactBatchRecordLayout,
    result: Result<FSERecordBatchArchiveSnapshot, FSETypedQueryIndexArchiveCodecError>,
) -> bool {
    (exists|snapshot: FSERecordBatchArchiveSnapshot|
        row_counts_fit(snapshot) && #[trigger] row_section_bytes(snapshot, encoders, layout) == Some(
            bytes,
        )) ==> (result matches Ok(decoded) && exists|snapshot: FSERecordBatchArchiveSnapshot|
        #[trigger] row_section_bytes(snapshot, encoders, layout) == Some(bytes) && snapshot_matches(
            decoded,
            snapshot,
        ))
}

/// A row-oriented section starts with the magic of its layout.
proof fn lemma_row_sections_start_with_magic(bytes: Seq<u8>, encoders: Seq<FSEFieldEncoderMetadata>)
    ensures
        forall|snapshot: FSERecordBatchArchiveSnapshot, layout: CompactBatchRecordLayout|
            #[trigger] row_section_bytes(snapshot, encoders, layout) == Some(bytes) ==> starts_with_section(
                bytes,
                layout_version(layout),
            ),
{
    assert forall|snapshot: FSERecordBatchArchiveSnapshot, layout: CompactBatchRecordLayout|
        #[trigger] row_section_bytes(snapshot, encoders, layout) == Some(bytes) implies starts_with_section(
        bytes,
        layout_version(layout),
    ) by {
        let fields = snapshot.schema_fields@;
        let records = snapshot.records@;
        let body = row_records_bytes(records, encoders, layout, records.len())->Some_0;
        let rest = spec_u64_to_le_bytes(fields.len() as u64) + compact_batch_fields_bytes(fields)
            + row_ids_bytes(snapshot.row_ids@, layout) + spec_u64_to_le_bytes(records.len() as u64) + body;
        assert(bytes =~= section_magic(layout_version(layout)) + rest);
        assert(bytes.subrange(0, 8) =~= section_magic(layout_version(layout)));
    }
}

proof fn lemma_row_records_prefix(
    records: Seq<FSERecordArchiveRecord>,
    encoders: Seq<FSEFieldEncoderMetadata>,
    layout: CompactBatchRecordLayout,
    count: nat,
    total: nat,
)
    requires
        count <= total,
        row_records_bytes(records, encoders, layout, total) is Some,
    ensures
        row_records_bytes(records, encoders, layout, count) is Some,
        row_records_bytes(records, encoders, layout, count)->Some_0.len()
            <= row_records_bytes(records, encoders, layout, total)->Some_0.len(),
        row_records_bytes(records, encoders, layout, total)->Some_0.subrange(
            0,
            row_records_bytes(records, encoders, layout, count)->Some_0.len() as int,
        ) == row_records_bytes(records, encoders, layout, count)->Some_0,
    decreases total - count,
{
    if count < total {
        lemma_row_records_prefix(records, encoders, layout, count, (total - 1) as nat);
        let shorter = row_records_bytes(records, encoders, layout, (total - 1) as nat)->Some_0;
        let longer = row_records_bytes(records, encoders, layout, total)->Some_0;
        let part = row_records_bytes(records, encoders, layout, count)->Some_0;
        assert(longer.subrange(0, shorter.len() as int) =~= shorter);
        assert(longer.subrange(0, part.len() as int) =~= shorter.subrange(0, part.len() as int));
    } else {
        let whole = row_records_bytes(records, encoders, layout, total)->Some_0;
        assert(whole.subrange(0, whole.len() as int) =~= whole);
    }
}

/// Decodes a row-oriented section toward `goal`, a batch laid out as `bytes`.
#[verifier::rlimit(100)]
fn decode_compact_toward(
    bytes: &[u8],
    record_encoder: &FSERecordEncoderMetadata,
    record_layout: CompactBatchRecordLayout,
    Ghost(goal): Ghost<Option<FSERecordBatchArchiveSnapshot>>,
) -> (result: Result<FSERecordBatchArchiveSnapshot, FSETypedQueryIndexArchiveCodecError>)
    requires
        goal matches Some(target) ==> row_counts_fit(target) && row_section_bytes(
            target,
            record_encoder@,
            record_layout,
        ) == Some(bytes@),
    ensures
        starts_with_section(bytes@, layout_version(record_layout)) ==> compact_layout_outcome(
            bytes@,
            record_encoder@,
            record_layout,
            result,
        ),
        !starts_with_section(bytes@, layout_version(record_layout)) ==> typed_batch_fallback(
            bytes@,
            result,
        ),
        goal matches Some(target) ==> (result matches Ok(decoded) && snapshot_matches(decoded, target)),
        starts_with_section(bytes@, layout_version(record_layout)) ==> (result matches Ok(decoded)
            ==> row_section_read(bytes@, record_encoder@, record_layout, decoded)),
{
    let ghost has_target = goal is Some;
    let ghost target: FSERecordBatchArchiveSnapshot = match goal {
        Some(t) => t,
        None => arbitrary(),
    };
    let ghost encoders = record_encoder@;
    let ghost field_total = target.schema_fields@.len();
    let ghost record_total = target.records@.len();
    let ghost fields_part = compact_batch_fields_bytes(target.schema_fields@);
    let ghost rows_part = row_ids_bytes(target.row_ids@, record_layout);
    let ghost records_part = row_records_bytes(target.records@, encoders, record_layout, record_total)->Some_0;
    proof {
        lemma_auto_spec_u64_to_from_le_bytes();
        if has_target {
            assert(bytes@ =~= section_magic(layout_version(record_layout)) + spec_u64_to_le_bytes(
                field_total as u64,
            ) + fields_part + rows_part + spec_u64_to_le_bytes(record_total as u64) + records_part);
            assert(bytes@.subrange(0, 8) =~= section_magic(layout_version(record_layout)));
        }
    }
    let magic = record_layout.magic();
    if !starts_with_magic(bytes, &magic) {
        return decode_typed_batch_fallback(bytes);
    }
    let fields = record_encoder.fields();
    let mut cursor = ByteCursor::new(bytes);
    match cursor.read_exact(8) {
        Ok(_) => {},
        Err(error) => return Err(lift(error, "typed_index.record_batch.compact_magic")),
    }
    proof {
        assert(cursor.rest() =~= bytes@.subrange(8, bytes@.len() as int));
        if has_target {
            assert(cursor.rest() =~= spec_u64_to_le_bytes(field_total as u64) + fields_part + rows_part
                + spec_u64_to_le_bytes(record_total as u64) + records_part);
            assert(cursor.rest().subrange(0, 8) =~= spec_u64_to_le_bytes(field_total as u64));
        }
    }
    let ghost at_field_count = cursor.rest();
    let field_count = match cursor.read_len() {
        Ok(count) => count,
        Err(error) => return Err(lift(error, "typed_index.record_batch.schema.field_count")),
    };
    if field_count != fields.len() {
        return Err(
            FSETypedQueryIndexArchiveCodecError::CompactBatchEncoderFieldCountMismatch {
                schema_field_count: field_count,
                encoder_field_count: fields.len(),
            },
        );
    }
    proof {
        if has_target {
            assert(field_count == field_total);
            assert(cursor.rest() =~= fields_part + rows_part + spec_u64_to_le_bytes(record_total as u64)
                + records_part);
            assert(cursor.rest().subrange(0, fields_part.len() as int) =~= fields_part);
        }
    }
    let ghost at_fields = cursor.rest();
    let schema_fields = match read_compact_batch_fields(
        &mut cursor,
        field_count,
        Ghost(if has_target { Some(target.schema_fields@) } else { None }),
    ) {
        Ok(schema_fields) => schema_fields,
        Err(error) => return Err(error),
    };
    proof {
        if has_target {
            assert(cursor.rest() =~= rows_part + spec_u64_to_le_bytes(record_total as u64) + records_part);
            assert(cursor.rest().subrange(0, rows_part.len() as int) =~= rows_part);
        }
    }
    let ghost at_rows = cursor.rest();
    let row_ids = match read_row_id_vec(
        &mut cursor,
        "typed_index.record_batch.row_ids",
        record_layout,
        Ghost(if has_target { Some(target.row_ids@) } else { None }),
    ) {
        Ok(row_ids) => row_ids,
        Err(error) => return Err(error),
    };
    proof {
        if has_target {
            assert(cursor.rest() =~= spec_u64_to_le_bytes(record_total as u64) + records_part);
            assert(cursor.rest().subrange(0, 8) =~= spec_u64_to_le_bytes(record_total as u64));
        }
    }
    let ghost rows_chunk = taken(at_rows, cursor.rest());
    let ghost at_record_count = cursor.rest();
    let record_count = match cursor.read_len() {
        Ok(count) => count,
        Err(error) => return Err(lift(error, "typed_index.record_batch.record_count")),
    };
    let ghost body = cursor.rest();
    proof {
        if has_target {
            assert(body =~= records_part);
            assert(row_records_bytes(target.records@, encoders, record_layout, 0) == Some(Seq::<u8>::empty()));
            assert(body.subrange(0, body.len() as int) =~= body);
        }
    }
    let ghost mut position: int = 0;
    let ghost mut pieces: Seq<Seq<u8>> = Seq::empty();
    proof {
        assert(body.subrange(0, 0) =~= Seq::<u8>::empty());
        assert(body.subrange(0, body.len() as int) =~= body);
    }
    let mut records: Vec<FSERecordArchiveRecord> = Vec::with_capacity(record_count);
    let mut index: usize = 0;
    while index < record_count
        invariant
            cursor.wf(),
            cursor.bytes@ == bytes@,
            0 <= position <= body.len(),
            cursor.rest() == body.subrange(position, body.len() as int),
            pieces.len() == index,
            body.subrange(0, position) == joined(pieces),
            forall|r: int|
                0 <= r < index ==> row_record_read(#[trigger] pieces[r], encoders, record_layout, records@[r].values@),
            fields@ == record_encoder@,
            encoders == record_encoder@,
            starts_with_section(bytes@, layout_version(record_layout)),
            bytes@.len() >= 16 && le_u64(bytes@.subrange(8, bytes@.len() as int)) == field_count,
            field_count == fields@.len(),
            index <= record_count,
            records@.len() == index,
            record_layout != CompactBatchRecordLayout::LegacyValueCount ==> forall|r: int|
                0 <= r < index ==> (#[trigger] records@[r]).values@.len() == fields@.len(),
            has_target == (goal is Some),
            has_target ==> goal == Some(target),
            has_target ==> {
                &&& row_counts_fit(target)
                &&& record_count == record_total
                &&& record_total == target.records@.len()
                &&& row_records_bytes(target.records@, encoders, record_layout, record_total) is Some
                &&& records_part == row_records_bytes(target.records@, encoders, record_layout, record_total)->Some_0
                &&& body == records_part
                &&& row_records_bytes(target.records@, encoders, record_layout, index as nat) is Some
                &&& cursor.rest() == body.subrange(
                    row_records_bytes(target.records@, encoders, record_layout, index as nat)->Some_0.len() as int,
                    body.len() as int,
                )
                &&& forall|r: int|
                    0 <= r < index ==> (#[trigger] records@[r]).values@.len()
                        == target.records@[r].values@.len()
                &&& forall|r: int, f: int|
                    0 <= r < index && 0 <= f < records@[r].values@.len() ==> value_matches(
                        #[trigger] records@[r].values@[f],
                        target.records@[r].values@[f],
                    )
            },
        decreases record_count - index,
    {
        let ghost before = cursor.rest();
        let ghost done = row_records_bytes(target.records@, encoders, record_layout, index as nat)->Some_0;
        let ghost record_target: Option<FSERecordArchiveRecord> = if has_target {
            Some(target.records@[index as int])
        } else {
            None
        };
        proof {
            if has_target {
                lemma_row_records_prefix(target.records@, encoders, record_layout, (index + 1) as nat, record_total);
                lemma_row_records_prefix(target.records@, encoders, record_layout, index as nat, record_total);
                let piece = row_record_bytes(target.records@[index as int], encoders, record_layout)->Some_0;
                let next = row_records_bytes(target.records@, encoders, record_layout, (index + 1) as nat)->Some_0;
                assert(next == done + piece);
                assert(body.subrange(0, next.len() as int) == next);
                assert(before.subrange(0, piece.len() as int) =~= next.subrange(
                    done.len() as int,
                    next.len() as int,
                ));
                assert(next.subrange(done.len() as int, next.len() as int) =~= piece);
                assert(target.records@[index as int].values@.len() <= usize::MAX);
            }
        }
        let ghost at = cursor.rest();
        let record = match read_compact_batch_record(&mut cursor, fields, record_layout, Ghost(record_target)) {
            Ok(record) => record,
            Err(error) => return Err(error),
        };
        proof {
            if has_target {
                let next = row_records_bytes(target.records@, encoders, record_layout, (index + 1) as nat)->Some_0;
                assert(cursor.rest() =~= body.subrange(next.len() as int, body.len() as int));
            }
        }
        proof {
            let next_position = position + (at.len() - cursor.rest().len());
            let piece = taken(at, cursor.rest());
            assert(at == piece + cursor.rest());
            assert(piece =~= body.subrange(position, next_position));
            assert(at.subrange(piece.len() as int, at.len() as int) =~= body.subrange(
                next_position,
                body.len() as int,
            ));
            assert(cursor.rest() =~= at.subrange(piece.len() as int, at.len() as int));
            assert(body.subrange(0, next_position) =~= body.subrange(0, position) + piece);
            lemma_joined_push(pieces, piece);
            pieces = pieces.push(piece);
            position = next_position;
        }
        records.push(record);
        index = index + 1;
    }
    proof {
        if has_target {
            assert(cursor.rest().len() == 0);
        }
    }
    if cursor.remaining() != 0 {
        return Err(
            FSETypedQueryIndexArchiveCodecError::TrailingBytes { remaining: cursor.remaining() },
        );
    }
    let decoded = FSERecordBatchArchiveSnapshot { schema_fields, row_ids, records };
    proof {
        lemma_row_section_assembled(
            bytes@,
            encoders,
            record_layout,
            decoded,
            at_field_count,
            at_fields,
            at_rows,
            rows_chunk,
            at_record_count,
            body,
            pieces,
        );
        if has_target {
            assert(snapshot_matches(decoded, target));
        }
    }
    Ok(decoded)
}

/// Decodes a typed record batch section in one of the row-oriented layouts.
/// Bytes that do not start with the layout's magic are decoded in the typed
/// record batch layout instead. A batch laid out in the row-oriented layout
/// decodes back to a batch with the same fields, row ids and values.
pub fn decode_compact_typed_query_index_record_batch_section(
    bytes: &[u8],
    record_encoder: &FSERecordEncoderMetadata,
    record_layout: CompactBatchRecordLayout,
) -> (result: Result<FSERecordBatchArchiveSnapshot, FSETypedQueryIndexArchiveCodecError>)
    ensures
        starts_with_section(bytes@, layout_version(record_layout)) ==> compact_layout_outcome(
            bytes@,
            record_encoder@,
            record_layout,
            result,
        ),
        !starts_with_section(bytes@, layout_version(record_layout)) ==> typed_batch_fallback(
            bytes@,
            result,
        ),
        row_layout_round_trip(bytes@, record_encoder@, record_layout, result),
{
    let ghost has_target = exists|snapshot: FSERecordBatchArchiveSnapshot|
        row_counts_fit(snapshot) && #[trigger] row_section_bytes(snapshot, record_encoder@, record_layout)
            == Some(bytes@);
    let ghost goal: Option<FSERecordBatchArchiveSnapshot> = if has_target {
        Some(
            choose|snapshot: FSERecordBatchArchiveSnapshot|
                row_counts_fit(snapshot) && #[trigger] row_section_bytes(
                    snapshot,
                    record_encoder@,
                    record_layout,
                ) == Some(bytes@),
        )
    } else {
        None
    };
    decode_compact_toward(bytes, record_encoder, record_layout, Ghost(goal))
}

/// Decodes the typed record batch section of a typed query index archive. The
/// leading magic picks the layout: the columnar layout, one of the row-oriented
/// layouts, or, with no known magic, the typed record batch layout.
pub fn decode_typed_query_index_record_batch_section(
    bytes: &[u8],
    record_encoder: &FSERecordEncoderMetadata,
) -> (result: Result<FSERecordBatchArchiveSnapshot, FSETypedQueryIndexArchiveCodecError>)
    ensures
        starts_with_section(bytes@, 5) ==> forall|snapshot: FSERecordBatchArchiveSnapshot|
            records_have_field_count(snapshot) && snapshot_counts_fit(snapshot)
                && #[trigger] batch_section_bytes(snapshot, record_encoder@) == Ok::<
                Seq<u8>,
                FSETypedQueryIndexArchiveCodecError,
            >(bytes@) ==> (result matches Ok(decoded) && batch_section_bytes(
                decoded,
                record_encoder@,
            ) == Ok::<Seq<u8>, FSETypedQueryIndexArchiveCodecError>(bytes@)),
        forall|snapshot: FSERecordBatchArchiveSnapshot|
            records_have_field_count(snapshot) && snapshot_counts_fit(snapshot) && dictionaries_fit(
                record_encoder@,
            ) && #[trigger] batch_section_bytes(snapshot, record_encoder@) == Ok::<
                Seq<u8>,
                FSETypedQueryIndexArchiveCodecError,
            >(bytes@) ==> (result matches Ok(decoded) && snapshot_matches(decoded, snapshot)),
        result matches Ok(decoded) ==> batch_section_read(bytes@, record_encoder@, decoded),
        starts_with_section(bytes@, 5) ==> (result matches Ok(decoded) ==> columnar_section_read(
            bytes@,
            record_encoder@,
            decoded,
        )),
        starts_with_section(bytes@, 5) ==> columnar_trailing_bytes_refused(
            bytes@,
            record_encoder@,
            result,
        ),
        starts_with_section(bytes@, 2) ==> compact_layout_outcome(
            bytes@,
            record_encoder@,
            CompactBatchRecordLayout::FixedFieldCountRawRowIds,
            result,
        ),
        starts_with_section(bytes@, 3) ==> compact_layout_outcome(
            bytes@,
            record_encoder@,
            CompactBatchRecordLayout::FixedFieldCountCompactRowIds,
            result,
        ),
        starts_with_section(bytes@, 4) ==> compact_layout_outcome(
            bytes@,
            record_encoder@,
            CompactBatchRecordLayout::FixedFieldCountCompactRowIdsCompactSignedValues,
            result,
        ),
        starts_with_section(bytes@, 1) ==> compact_layout_outcome(
            bytes@,
            record_encoder@,
            CompactBatchRecordLayout::LegacyValueCount,
            result,
        ),
        !starts_with_section(bytes@, 1) && !starts_with_section(bytes@, 2) && !starts_with_section(
            bytes@,
            3,
        ) && !starts_with_section(bytes@, 4) && !starts_with_section(bytes@, 5)
            ==> typed_batch_fallback(bytes@, result),
        row_layout_round_trip(bytes@, record_encoder@, CompactBatchRecordLayout::LegacyValueCount, result),
        row_layout_round_trip(
            bytes@,
            record_encoder@,
            CompactBatchRecordLayout::FixedFieldCountRawRowIds,
            result,
        ),
        row_layout_round_trip(
            bytes@,
            record_encoder@,
            CompactBatchRecordLayout::FixedFieldCountCompactRowIds,
            result,
        ),
        row_layout_round_trip(
            bytes@,
            record_encoder@,
            CompactBatchRecordLayout::FixedFieldCountCompactRowIdsCompactSignedValues,
            result,
        ),
{
    proof {
        lemma_section_magics_differ(bytes@);
        lemma_row_sections_start_with_magic(bytes@, record_encoder@);
        lemma_columnar_sections_start_with_magic(bytes@, record_encoder@);
    }
    if starts_with_magic(bytes, &COMPACT_TYPED_BATCH_SECTION_V5_MAGIC) {
        assert(COMPACT_TYPED_BATCH_SECTION_V5_MAGIC@ =~= section_magic(5));
        return decode_columnar_typed_query_index_record_batch_section(bytes, record_encoder);
    }
    assert(COMPACT_TYPED_BATCH_SECTION_V5_MAGIC@ =~= section_magic(5));
    if starts_with_magic(bytes, &COMPACT_TYPED_BATCH_SECTION_V2_MAGIC) {
        return decode_compact_typed_query_index_record_batch_section(
            bytes,
            record_encoder,
            CompactBatchRecordLayout::FixedFieldCountRawRowIds,
        );
    }
    assert(COMPACT_TYPED_BATCH_SECTION_V2_MAGIC@ =~= section_magic(2));
    if starts_with_magic(bytes, &COMPACT_TYPED_BATCH_SECTION_V3_MAGIC) {
        return decode_compact_typed_query_index_record_batch_section(
            bytes,
            record_encoder,
            CompactBatchRecordLayout::FixedFieldCountCompactRowIds,
        );
    }
    assert(COMPACT_TYPED_BATCH_SECTION_V3_MAGIC@ =~= section_magic(3));
    if starts_with_magic(bytes, &COMPACT_TYPED_BATCH_SECTION_V4_MAGIC) {
        return decode_compact_typed_query_index_record_batch_section(
            bytes,
            record_encoder,
            CompactBatchRecordLayout::FixedFieldCountCompactRowIdsCompactSignedValues,
        );
    }
    assert(COMPACT_TYPED_BATCH_SECTION_V4_MAGIC@ =~= section_magic(4));
    if starts_with_magic(bytes, &COMPACT_TYPED_BATCH_SECTION_V1_MAGIC) {
        return decode_compact_typed_query_index_record_batch_section(
            bytes,
            record_encoder,
            CompactBatchRecordLayout::LegacyValueCount,
        );
    }
    assert(COMPACT_TYPED_BATCH_SECTION_V1_MAGIC@ =~= section_magic(1));
    decode_typed_batch_fallback(bytes)
}

/// The magics of the section layouts differ, so bytes start with at most one.
proof fn lemma_section_magics_differ(bytes: Seq<u8>)
    ensures
        forall|a: u8, b: u8|
            1 <= a <= 5 && 1 <= b <= 5 && a != b && #[trigger] starts_with_section(bytes, a)
                ==> !#[trigger] starts_with_section(bytes, b),
{
    assert forall|a: u8, b: u8|
        1 <= a <= 5 && 1 <= b <= 5 && a != b && #[trigger] starts_with_section(bytes, a) implies !#[trigger] starts_with_section(
        bytes,
        b,
    ) by {
        if starts_with_section(bytes, b) {
            assert(section_magic(a)[7] == bytes[7]);
            assert(section_magic(b)[7] == bytes[7]);
        }
    }
}

/// Dictionaries with labels of the same characters give each label the same position.
proof fn lemma_first_label_position_matching(left: Seq<String>, right: Seq<String>, label: Seq<char>, index: int)
    requires
        left.len() == right.len(),
        forall|i: int| 0 <= i < left.len() ==> #[trigger] left[i]@ == right[i]@,
    ensures
        first_label_position(left, label, index) == first_label_position(right, label, index),
    decreases left.len() - index,
{
    if 0 <= index < left.len() {
        lemma_first_label_position_matching(left, right, label, index + 1);
    }
}

proof fn lemma_column_values_encoders(
    records: Seq<FSERecordArchiveRecord>,
    field_index: usize,
    field_type: FSEFieldTypeArchiveTag,
    left: FSEFieldEncoderMetadata,
    right: FSEFieldEncoderMetadata,
    count: nat,
)
    requires
        field_encoder_matches(left, right),
    ensures
        column_values_bytes(records, field_index, field_type, left, count) == column_values_bytes(
            records,
            field_index,
            field_type,
            right,
            count,
        ),
    decreases count,
{
    if count > 0 {
        lemma_column_values_encoders(records, field_index, field_type, left, right, (count - 1) as nat);
        if let (
            FSEFieldEncoderMetadata::CategoryDictionary { categories: a },
            FSEFieldEncoderMetadata::CategoryDictionary { categories: b },
        ) = (left, right) {
            let value = records[count - 1].values@[field_index as int];
            if let FSEValueArchiveRecord::Category(label) = value {
                lemma_first_label_position_matching(a@, b@, label@, 0);
            }
        }
    }
}

proof fn lemma_columns_encoders(
    snapshot: FSERecordBatchArchiveSnapshot,
    left: Seq<FSEFieldEncoderMetadata>,
    right: Seq<FSEFieldEncoderMetadata>,
    count: nat,
)
    requires
        field_encoders_match(left, right),
        count <= left.len() <= usize::MAX,
    ensures
        columns_bytes(snapshot, left, count) == columns_bytes(snapshot, right, count),
    decreases count,
{
    if count > 0 {
        lemma_columns_encoders(snapshot, left, right, (count - 1) as nat);
        let f = (count - 1) as usize;
        assert(field_encoder_matches(left[f as int], right[f as int]));
        lemma_column_values_encoders(
            snapshot.records@,
            f,
            snapshot.schema_fields@[f as int].field_type,
            left[f as int],
            right[f as int],
            snapshot.records@.len(),
        );
    }
}

/// A batch section depends on the field encoders only through their kinds and
/// the characters of their labels.
pub proof fn lemma_batch_section_matching_encoders(
    snapshot: FSERecordBatchArchiveSnapshot,
    left: Seq<FSEFieldEncoderMetadata>,
    right: Seq<FSEFieldEncoderMetadata>,
)
    requires
        field_encoders_match(left, right),
        left.len() <= usize::MAX,
    ensures
        batch_section_bytes(snapshot, left) == batch_section_bytes(snapshot, right),
{
    if snapshot.schema_fields@.len() == left.len() {
        lemma_columns_encoders(snapshot, left, right, snapshot.schema_fields@.len());
    }
}

pub(crate) proof fn lemma_concat_split(a: Seq<u8>, x: Seq<u8>, b: Seq<u8>, y: Seq<u8>)
    requires
        a + x == b + y,
        a.len() == b.len(),
    ensures
        a == b,
        x == y,
{
    assert(a =~= (a + x).subrange(0, a.len() as int));
    assert(b =~= (b + y).subrange(0, b.len() as int));
    assert(x =~= (a + x).subrange(a.len() as int, (a + x).len() as int));
    assert(y =~= (b + y).subrange(b.len() as int, (b + y).len() as int));
}

proof fn lemma_var_u64_unique(a: u64, b: u64, x: Seq<u8>, y: Seq<u8>)
    requires
        var_u64_bytes(a) + x == var_u64_bytes(b) + y,
    ensures
        a == b,
        x == y,
{
    lemma_var_u64_round_trip(a, x);
    lemma_var_u64_round_trip(b, y);
    lemma_concat_split(var_u64_bytes(a), x, var_u64_bytes(b), y);
}

pub(crate) proof fn lemma_zig_zag_unique(a: i64, b: i64)
    requires
        zig_zag(a) == zig_zag(b),
    ensures
        a == b,
{
    lemma_zig_zag_round_trip(a, 0);
    lemma_zig_zag_round_trip(b, 0);
}

pub(crate) proof fn lemma_string_field_prefix_unique(a: Seq<char>, b: Seq<char>, x: Seq<u8>, y: Seq<u8>)
    requires
        string_field_bytes(a) + x == string_field_bytes(b) + y,
        (string_field_bytes(a) + x).len() <= u64::MAX,
    ensures
        a == b,
        x == y,
{
    let bytes = string_field_bytes(a) + x;
    assert(bytes.subrange(0, string_field_bytes(a).len() as int) =~= string_field_bytes(a));
    assert((string_field_bytes(b) + y).subrange(0, string_field_bytes(b).len() as int)
        =~= string_field_bytes(b));
    lemma_string_field_unique(bytes, a, b);
    lemma_concat_split(string_field_bytes(a), x, string_field_bytes(b), y);
}

pub(crate) proof fn lemma_u64s_le_unique(a: Seq<u64>, b: Seq<u64>, x: Seq<u8>, y: Seq<u8>)
    requires
        a.len() == b.len(),
        u64s_le_bytes(a) + x == u64s_le_bytes(b) + y,
    ensures
        a == b,
        x == y,
{
    lemma_u64s_le_bytes(a);
    lemma_u64s_le_bytes(b);
    lemma_concat_split(u64s_le_bytes(a), x, u64s_le_bytes(b), y);
    lemma_u64s_round_trip(a);
    lemma_u64s_round_trip(b);
}

pub(crate) proof fn lemma_var_u64s_unique_from(a: Seq<u64>, b: Seq<u64>, index: int, x: Seq<u8>, y: Seq<u8>)
    requires
        a.len() == b.len(),
        0 <= index <= a.len(),
        var_u64s_bytes(a.subrange(index, a.len() as int)) + x == var_u64s_bytes(
            b.subrange(index, b.len() as int),
        ) + y,
    ensures
        a.subrange(index, a.len() as int) == b.subrange(index, b.len() as int),
        x == y,
    decreases a.len() - index,
{
    if index == a.len() {
        assert(a.subrange(index, a.len() as int) =~= Seq::<u64>::empty());
        assert(b.subrange(index, b.len() as int) =~= Seq::<u64>::empty());
        assert(var_u64s_bytes(Seq::<u64>::empty()) =~= Seq::<u8>::empty());
        assert(x =~= Seq::<u8>::empty() + x);
        assert(y =~= Seq::<u8>::empty() + y);
    } else {
        lemma_var_u64s_first(a, index);
        lemma_var_u64s_first(b, index);
        let rest_a = var_u64s_bytes(a.subrange(index + 1, a.len() as int));
        let rest_b = var_u64s_bytes(b.subrange(index + 1, b.len() as int));
        assert((var_u64_bytes(a[index]) + rest_a) + x =~= var_u64_bytes(a[index]) + (rest_a + x));
        assert((var_u64_bytes(b[index]) + rest_b) + y =~= var_u64_bytes(b[index]) + (rest_b + y));
        assert(var_u64_bytes(a[index]) + (rest_a + x) == var_u64_bytes(b[index]) + (rest_b + y));
        lemma_var_u64_unique(a[index], b[index], rest_a + x, rest_b + y);
        lemma_var_u64s_unique_from(a, b, index + 1, x, y);
        assert(a.subrange(index, a.len() as int) =~= seq![a[index]] + a.subrange(
            index + 1,
            a.len() as int,
        ));
        assert(b.subrange(index, b.len() as int) =~= seq![b[index]] + b.subrange(
            index + 1,
            b.len() as int,
        ));
    }
}

pub(crate) proof fn lemma_compact_u64_vec_unique(a: Seq<u64>, b: Seq<u64>, x: Seq<u8>, y: Seq<u8>)
    requires
        compact_u64_vec_bytes(a) + x == compact_u64_vec_bytes(b) + y,
        (compact_u64_vec_bytes(a) + x).len() <= u64::MAX,
    ensures
        a == b,
        x == y,
{
    lemma_auto_spec_u64_to_from_le_bytes();
    lemma_var_u64s_len(a);
    lemma_var_u64s_len(b);
    lemma_u64s_le_bytes(a);
    lemma_u64s_le_bytes(b);
    let whole = compact_u64_vec_bytes(a) + x;
    assert(whole[0] == compact_u64_vec_bytes(a)[0]);
    assert(whole[0] == compact_u64_vec_bytes(b)[0]);
    assert(whole.subrange(1, 9) =~= compact_u64_vec_bytes(a).subrange(1, 9));
    assert((compact_u64_vec_bytes(b) + y).subrange(1, 9) =~= compact_u64_vec_bytes(b).subrange(1, 9));
    assert(compact_u64_vec_bytes(a).subrange(1, 9) =~= spec_u64_to_le_bytes(a.len() as u64));
    assert(compact_u64_vec_bytes(b).subrange(1, 9) =~= spec_u64_to_le_bytes(b.len() as u64));
    assert(a.len() == b.len());
    let tail_a = whole.subrange(9, whole.len() as int);
    if var_u64s_bytes(a).len() < 8 * a.len() {
        assert(var_u64s_bytes(b).len() < 8 * b.len());
        assert(tail_a =~= var_u64s_bytes(a) + x);
        assert(tail_a =~= var_u64s_bytes(b) + y);
        assert(a.subrange(0, a.len() as int) =~= a);
        assert(b.subrange(0, b.len() as int) =~= b);
        lemma_var_u64s_unique_from(a, b, 0, x, y);
    } else {
        assert(!(var_u64s_bytes(b).len() < 8 * b.len()));
        assert(tail_a =~= u64s_le_bytes(a) + x);
        assert(tail_a =~= u64s_le_bytes(b) + y);
        lemma_u64s_le_unique(a, b, x, y);
    }
}

pub(crate) proof fn lemma_compact_fields_unique_from(
    a: Seq<FSEFieldArchiveRecord>,
    b: Seq<FSEFieldArchiveRecord>,
    index: int,
    x: Seq<u8>,
    y: Seq<u8>,
)
    requires
        a.len() == b.len(),
        0 <= index <= a.len(),
        compact_batch_fields_bytes(a.subrange(index, a.len() as int)) + x == compact_batch_fields_bytes(
            b.subrange(index, b.len() as int),
        ) + y,
        (compact_batch_fields_bytes(a.subrange(index, a.len() as int)) + x).len() <= u64::MAX,
    ensures
        forall|i: int| index <= i < a.len() ==> field_matches(#[trigger] a[i], b[i]),
        x == y,
    decreases a.len() - index,
{
    if index == a.len() {
        assert(a.subrange(index, a.len() as int) =~= Seq::<FSEFieldArchiveRecord>::empty());
        assert(b.subrange(index, b.len() as int) =~= Seq::<FSEFieldArchiveRecord>::empty());
        assert(x =~= Seq::<u8>::empty() + x);
        assert(y =~= Seq::<u8>::empty() + y);
    } else {
        lemma_compact_batch_fields_first(a, index);
        lemma_compact_batch_fields_first(b, index);
        let rest_a = compact_batch_fields_bytes(a.subrange(index + 1, a.len() as int));
        let rest_b = compact_batch_fields_bytes(b.subrange(index + 1, b.len() as int));
        let fa = a[index];
        let fb = b[index];
        let tail_a = seq![compact_field_type_tag(fa.field_type), bool_byte(fa.nullable)] + (rest_a + x);
        let tail_b = seq![compact_field_type_tag(fb.field_type), bool_byte(fb.nullable)] + (rest_b + y);
        assert((compact_batch_field_bytes(fa) + rest_a) + x =~= string_field_bytes(fa.name@) + tail_a);
        assert((compact_batch_field_bytes(fb) + rest_b) + y =~= string_field_bytes(fb.name@) + tail_b);
        lemma_string_field_prefix_unique(fa.name@, fb.name@, tail_a, tail_b);
        lemma_concat_split(
            seq![compact_field_type_tag(fa.field_type), bool_byte(fa.nullable)],
            rest_a + x,
            seq![compact_field_type_tag(fb.field_type), bool_byte(fb.nullable)],
            rest_b + y,
        );
        assert(compact_field_type_tag(fa.field_type) == compact_field_type_tag(fb.field_type));
        assert(fa.field_type == fb.field_type);
        assert(fa.nullable == fb.nullable);
        lemma_compact_fields_unique_from(a, b, index + 1, x, y);
    }
}

/// Null maps of the same number of records that start equal byte strings hold
/// the same flags, and what follows them is the same.
proof fn lemma_nulls_unique(a: Seq<bool>, b: Seq<bool>, x: Seq<u8>, y: Seq<u8>)
    requires
        a.len() == b.len(),
        nulls_bytes(a) + x == nulls_bytes(b) + y,
    ensures
        a == b,
        x == y,
{
    let whole = nulls_bytes(a) + x;
    assert(whole[0] == nulls_bytes(a)[0]);
    assert((nulls_bytes(b) + y)[0] == nulls_bytes(b)[0]);
    if a.contains(true) {
        assert(b.contains(true));
        let bits_a = null_bitmap_bytes(a);
        let bits_b = null_bitmap_bytes(b);
        assert(nulls_bytes(a) =~= seq![COMPACT_BATCH_NULLS_BITMAP_MODE] + bits_a);
        assert(nulls_bytes(b) =~= seq![COMPACT_BATCH_NULLS_BITMAP_MODE] + bits_b);
        lemma_concat_split(nulls_bytes(a), x, nulls_bytes(b), y);
        assert(bits_a =~= nulls_bytes(a).subrange(1, nulls_bytes(a).len() as int));
        assert(bits_b =~= nulls_bytes(b).subrange(1, nulls_bytes(b).len() as int));
        assert forall|i: int| 0 <= i < a.len() implies a[i] == b[i] by {
            let byte_index = i / 8;
            let bit = (i % 8) as u8;
            lemma_bitmap_bit(a, byte_index, 8, bit);
            lemma_bitmap_bit(b, byte_index, 8, bit);
            assert(bits_a[byte_index] == bitmap_byte_bits(a, byte_index, 8));
            assert(bits_b[byte_index] == bitmap_byte_bits(b, byte_index, 8));
        }
        assert(a =~= b);
    } else {
        assert(!b.contains(true));
        assert forall|i: int| 0 <= i < a.len() implies a[i] == b[i] by {
            if a[i] {
                assert(a.contains(true));
            }
            if b[i] {
                assert(b.contains(true));
            }
        }
        assert(a =~= b);
        lemma_concat_split(nulls_bytes(a), x, nulls_bytes(b), y);
    }
}

/// A field encoder's dictionary, if it has one, has fewer labels than `u64::MAX`.
pub open spec fn dictionary_fits(encoder: FSEFieldEncoderMetadata) -> bool {
    encoder matches FSEFieldEncoderMetadata::CategoryDictionary { categories } ==> categories@.len()
        <= u64::MAX
}

/// Every dictionary among the field encoders has fewer labels than `u64::MAX`,
/// as every dictionary held in memory does.
pub open spec fn dictionaries_fit(encoders: Seq<FSEFieldEncoderMetadata>) -> bool {
    forall|i: int| 0 <= i < encoders.len() ==> dictionary_fits(#[trigger] encoders[i])
}

proof fn lemma_category_code_unique(count: nat, p: u64, q: u64)
    requires
        p < count,
        q < count,
        category_code_bytes(count, p) == category_code_bytes(count, q),
    ensures
        p == q,
{
    lemma_auto_spec_u16_to_from_le_bytes();
    lemma_auto_spec_u32_to_from_le_bytes();
    lemma_auto_spec_u64_to_from_le_bytes();
    if count <= 0x100 {
        assert(category_code_bytes(count, p)[0] == p as u8);
        assert(category_code_bytes(count, q)[0] == q as u8);
    } else if count <= 0x1_0000 {
        assert(spec_u16_to_le_bytes(p as u16).len() == 2);
        assert(spec_u16_to_le_bytes(q as u16).len() == 2);
    } else if count <= 0x1_0000_0000 {
        assert(spec_u32_to_le_bytes(p as u32).len() == 4);
        assert(spec_u32_to_le_bytes(q as u32).len() == 4);
    } else {
        assert(spec_u64_to_le_bytes(p).len() == 8);
        assert(spec_u64_to_le_bytes(q).len() == 8);
    }
}

/// Non-null values of one field whose encodings start equal byte strings hold
/// the same content, and what follows them is the same.
proof fn lemma_column_value_unique(
    field_index: usize,
    left: FSEValueArchiveRecord,
    right: FSEValueArchiveRecord,
    field_type: FSEFieldTypeArchiveTag,
    encoder: FSEFieldEncoderMetadata,
    x: Seq<u8>,
    y: Seq<u8>,
)
    requires
        column_value_bytes(field_index, left, field_type, encoder) is Ok,
        column_value_bytes(field_index, right, field_type, encoder) is Ok,
        column_value_bytes(field_index, left, field_type, encoder)->Ok_0 + x == column_value_bytes(
            field_index,
            right,
            field_type,
            encoder,
        )->Ok_0 + y,
        (column_value_bytes(field_index, left, field_type, encoder)->Ok_0 + x).len() <= u64::MAX,
        dictionary_fits(encoder),
    ensures
        value_matches(left, right),
        column_value_bytes(field_index, left, field_type, encoder)->Ok_0 == column_value_bytes(
            field_index,
            right,
            field_type,
            encoder,
        )->Ok_0,
        x == y,
{
    lemma_auto_spec_u64_to_from_le_bytes();
    let bl = column_value_bytes(field_index, left, field_type, encoder)->Ok_0;
    let br = column_value_bytes(field_index, right, field_type, encoder)->Ok_0;
    match (left, right) {
        (FSEValueArchiveRecord::Integer(a), FSEValueArchiveRecord::Integer(b)) => {
            lemma_var_u64_unique(zig_zag(a), zig_zag(b), x, y);
            lemma_zig_zag_unique(a, b);
        },
        (FSEValueArchiveRecord::TimestampMillis(a), FSEValueArchiveRecord::TimestampMillis(b)) => {
            lemma_var_u64_unique(zig_zag(a), zig_zag(b), x, y);
            lemma_zig_zag_unique(a, b);
        },
        (FSEValueArchiveRecord::Float(a), FSEValueArchiveRecord::Float(b)) => {
            assert(spec_u64_to_le_bytes(a).len() == 8);
            assert(spec_u64_to_le_bytes(b).len() == 8);
            lemma_concat_split(bl, x, br, y);
        },
        (FSEValueArchiveRecord::Boolean(a), FSEValueArchiveRecord::Boolean(b)) => {
            lemma_concat_split(bl, x, br, y);
            assert(bl[0] == br[0]);
        },
        (FSEValueArchiveRecord::Text(a), FSEValueArchiveRecord::Text(b)) => {
            lemma_string_field_prefix_unique(a@, b@, x, y);
        },
        (FSEValueArchiveRecord::Category(a), FSEValueArchiveRecord::Category(b)) => {
            let categories = encoder->categories;
            let p = first_label_position(categories@, a@, 0)->Some_0;
            let q = first_label_position(categories@, b@, 0)->Some_0;
            lemma_first_label_position_range(categories@, a@, 0);
            lemma_first_label_position_range(categories@, b@, 0);
            lemma_category_code_unique_len(categories@.len(), p as u64, q as u64);
            lemma_concat_split(bl, x, br, y);
            lemma_category_code_unique(categories@.len(), p as u64, q as u64);
        },
        _ => {},
    }
}

proof fn lemma_category_code_unique_len(count: nat, p: u64, q: u64)
    ensures
        category_code_bytes(count, p).len() == category_code_bytes(count, q).len(),
{
    lemma_auto_spec_u16_to_from_le_bytes();
    lemma_auto_spec_u32_to_from_le_bytes();
    lemma_auto_spec_u64_to_from_le_bytes();
    if count <= 0x100 {
    } else if count <= 0x1_0000 {
        assert(spec_u16_to_le_bytes(p as u16).len() == 2);
        assert(spec_u16_to_le_bytes(q as u16).len() == 2);
    } else if count <= 0x1_0000_0000 {
        assert(spec_u32_to_le_bytes(p as u32).len() == 4);
        assert(spec_u32_to_le_bytes(q as u32).len() == 4);
    } else {
        assert(spec_u64_to_le_bytes(p).len() == 8);
        assert(spec_u64_to_le_bytes(q).len() == 8);
    }
}

proof fn lemma_column_values_unique_from(
    left: Seq<FSERecordArchiveRecord>,
    right: Seq<FSERecordArchiveRecord>,
    field_index: usize,
    field_type: FSEFieldTypeArchiveTag,
    encoder: FSEFieldEncoderMetadata,
    count: nat,
    x: Seq<u8>,
    y: Seq<u8>,
)
    requires
        left.len() == right.len(),
        count <= left.len(),
        null_flags(left, field_index as int) == null_flags(right, field_index as int),
        column_values_bytes(left, field_index, field_type, encoder, left.len()) is Ok,
        column_values_bytes(right, field_index, field_type, encoder, right.len()) is Ok,
        column_values_bytes(left, field_index, field_type, encoder, left.len())->Ok_0 + x
            == column_values_bytes(right, field_index, field_type, encoder, right.len())->Ok_0 + y,
        (column_values_bytes(left, field_index, field_type, encoder, left.len())->Ok_0 + x).len()
            <= u64::MAX,
        dictionary_fits(encoder),
        column_values_bytes(left, field_index, field_type, encoder, count) == column_values_bytes(
            right,
            field_index,
            field_type,
            encoder,
            count,
        ),
        forall|j: int|
            0 <= j < count ==> value_matches(
                #[trigger] left[j].values@[field_index as int],
                right[j].values@[field_index as int],
            ),
    ensures
        forall|j: int|
            0 <= j < left.len() ==> value_matches(
                #[trigger] left[j].values@[field_index as int],
                right[j].values@[field_index as int],
            ),
        x == y,
    decreases left.len() - count,
{
    let n = left.len();
    let whole_left = column_values_bytes(left, field_index, field_type, encoder, n)->Ok_0;
    let whole_right = column_values_bytes(right, field_index, field_type, encoder, n)->Ok_0;
    if count == n {
        lemma_concat_split(whole_left, x, whole_right, y);
    } else {
        lemma_column_values_prefix(left, field_index, field_type, encoder, (count + 1) as nat, n);
        lemma_column_values_prefix(right, field_index, field_type, encoder, (count + 1) as nat, n);
        lemma_column_values_prefix(left, field_index, field_type, encoder, count, n);
        let done = column_values_bytes(left, field_index, field_type, encoder, count)->Ok_0;
        let next_left = column_values_bytes(left, field_index, field_type, encoder, (count + 1) as nat)->Ok_0;
        let next_right = column_values_bytes(right, field_index, field_type, encoder, (count + 1) as nat)->Ok_0;
        let value_left = left[count as int].values@[field_index as int];
        let value_right = right[count as int].values@[field_index as int];
        assert(null_flags(left, field_index as int)[count as int] == (value_left is Null));
        assert(null_flags(right, field_index as int)[count as int] == (value_right is Null));
        assert(null_flags(left, field_index as int)[count as int] == null_flags(
            right,
            field_index as int,
        )[count as int]);
        if value_left is Null {
            assert(value_right is Null);
            assert(next_left == done);
            assert(next_right == done);
        } else {
            assert(!(value_right is Null));
            let piece_left = column_value_bytes(field_index, value_left, field_type, encoder)->Ok_0;
            let piece_right = column_value_bytes(field_index, value_right, field_type, encoder)->Ok_0;
            assert(next_left == done + piece_left);
            assert(next_right == done + piece_right);
            let more_left = whole_left.subrange(next_left.len() as int, whole_left.len() as int);
            let more_right = whole_right.subrange(next_right.len() as int, whole_right.len() as int);
            assert(whole_left =~= next_left + more_left);
            assert(whole_right =~= next_right + more_right);
            assert(whole_left + x =~= done + (piece_left + (more_left + x)));
            assert(whole_right + y =~= done + (piece_right + (more_right + y)));
            lemma_concat_split(done, piece_left + (more_left + x), done, piece_right + (more_right + y));
            lemma_column_value_unique(
                field_index,
                value_left,
                value_right,
                field_type,
                encoder,
                more_left + x,
                more_right + y,
            );
        }
        lemma_column_values_unique_from(
            left,
            right,
            field_index,
            field_type,
            encoder,
            (count + 1) as nat,
            x,
            y,
        );
    }
}

proof fn lemma_same_tail_split(a: Seq<u8>, b: Seq<u8>, t: Seq<u8>)
    requires
        a + t == b + t,
    ensures
        a == b,
{
    assert((a + t).len() == a.len() + t.len());
    assert((b + t).len() == b.len() + t.len());
    assert((a + t).len() == (b + t).len());
    lemma_concat_split(a, t, b, t);
}

#[verifier::rlimit(100)]
proof fn lemma_columns_unique_from(
    left: FSERecordBatchArchiveSnapshot,
    right: FSERecordBatchArchiveSnapshot,
    encoders: Seq<FSEFieldEncoderMetadata>,
    count: nat,
    x: Seq<u8>,
    y: Seq<u8>,
)
    requires
        records_have_field_count(left),
        records_have_field_count(right),
        left.schema_fields@.len() == encoders.len(),
        right.schema_fields@.len() == encoders.len(),
        forall|i: int|
            0 <= i < encoders.len() ==> (#[trigger] left.schema_fields@[i]).field_type
                == right.schema_fields@[i].field_type,
        left.records@.len() == right.records@.len(),
        count <= encoders.len(),
        encoders.len() <= usize::MAX,
        dictionaries_fit(encoders),
        columns_bytes(left, encoders, encoders.len()) is Ok,
        columns_bytes(right, encoders, encoders.len()) is Ok,
        columns_bytes(left, encoders, encoders.len())->Ok_0 + x == columns_bytes(
            right,
            encoders,
            encoders.len(),
        )->Ok_0 + y,
        (columns_bytes(left, encoders, encoders.len())->Ok_0 + x).len() <= u64::MAX,
        columns_bytes(left, encoders, count) == columns_bytes(right, encoders, count),
        forall|k: int, r: int|
            0 <= k < count && 0 <= r < left.records@.len() ==> value_matches(
                #[trigger] left.records@[r].values@[k],
                right.records@[r].values@[k],
            ),
    ensures
        forall|k: int, r: int|
            0 <= k < encoders.len() && 0 <= r < left.records@.len() ==> value_matches(
                #[trigger] left.records@[r].values@[k],
                right.records@[r].values@[k],
            ),
        x == y,
    decreases encoders.len() - count,
{
    let total = encoders.len();
    let whole_left = columns_bytes(left, encoders, total)->Ok_0;
    let whole_right = columns_bytes(right, encoders, total)->Ok_0;
    if count == total {
        lemma_concat_split(whole_left, x, whole_right, y);
    } else {
        let k = count as usize;
        lemma_columns_prefix(left, encoders, (count + 1) as nat, total);
        lemma_columns_prefix(right, encoders, (count + 1) as nat, total);
        lemma_columns_prefix(left, encoders, count, total);
        let done = columns_bytes(left, encoders, count)->Ok_0;
        let next_left = columns_bytes(left, encoders, (count + 1) as nat)->Ok_0;
        let next_right = columns_bytes(right, encoders, (count + 1) as nat)->Ok_0;
        lemma_no_short_records(left, count as int, 0);
        lemma_no_short_records(right, count as int, 0);
        let records_left = left.records@;
        let records_right = right.records@;
        let field_type = left.schema_fields@[count as int].field_type;
        assert(right.schema_fields@[count as int].field_type == field_type);
        let encoder = encoders[count as int];
        let values_left = column_values_bytes(records_left, k, field_type, encoder, records_left.len())->Ok_0;
        let values_right = column_values_bytes(records_right, k, field_type, encoder, records_right.len())->Ok_0;
        let flags_left = null_flags(records_left, count as int);
        let flags_right = null_flags(records_right, count as int);
        assert(columns_bytes(left, encoders, (count + 1) as nat) is Ok);
        assert(columns_bytes(right, encoders, (count + 1) as nat) is Ok);
        assert(column_bytes(left, encoders, k) is Ok);
        assert(column_bytes(right, encoders, k) is Ok);
        assert(column_bytes(left, encoders, k) == Ok::<Seq<u8>, FSETypedQueryIndexArchiveCodecError>(
            nulls_bytes(flags_left) + values_left,
        ));
        assert(column_bytes(right, encoders, k) == Ok::<Seq<u8>, FSETypedQueryIndexArchiveCodecError>(
            nulls_bytes(flags_right) + values_right,
        ));
        let column_left = nulls_bytes(flags_left) + values_left;
        let column_right = nulls_bytes(flags_right) + values_right;
        assert(next_left == done + column_left);
        assert(next_right == done + column_right);
        let more_left = whole_left.subrange(next_left.len() as int, whole_left.len() as int);
        let more_right = whole_right.subrange(next_right.len() as int, whole_right.len() as int);
        assert(whole_left =~= next_left + more_left);
        assert(whole_right =~= next_right + more_right);
        let tail_left = more_left + x;
        let tail_right = more_right + y;
        assert(whole_left + x =~= done + (nulls_bytes(flags_left) + (values_left + tail_left)));
        assert(whole_right + y =~= done + (nulls_bytes(flags_right) + (values_right + tail_right)));
        lemma_concat_split(
            done,
            nulls_bytes(flags_left) + (values_left + tail_left),
            done,
            nulls_bytes(flags_right) + (values_right + tail_right),
        );
        lemma_nulls_unique(flags_left, flags_right, values_left + tail_left, values_right + tail_right);
        assert(dictionary_fits(encoders[count as int]));
        assert(column_values_bytes(records_left, k, field_type, encoder, 0) == Ok::<
            Seq<u8>,
            FSETypedQueryIndexArchiveCodecError,
        >(Seq::empty()));
        assert(column_values_bytes(records_right, k, field_type, encoder, 0) == Ok::<
            Seq<u8>,
            FSETypedQueryIndexArchiveCodecError,
        >(Seq::empty()));
        assert((values_left + tail_left).len() <= (whole_left + x).len());
        lemma_column_values_unique_from(
            records_left,
            records_right,
            k,
            field_type,
            encoder,
            0,
            tail_left,
            tail_right,
        );
        lemma_same_tail_split(values_left, values_right, tail_left);
        assert(next_left == next_right);
        lemma_columns_unique_from(left, right, encoders, (count + 1) as nat, x, y);
    }
}

/// The columnar section determines the batch: two well-formed batches that
/// encode to the same section bytes hold the same fields, row ids and values.
#[verifier::rlimit(60)]
pub proof fn lemma_batch_section_bytes_injective(
    left: FSERecordBatchArchiveSnapshot,
    right: FSERecordBatchArchiveSnapshot,
    encoders: Seq<FSEFieldEncoderMetadata>,
)
    requires
        records_have_field_count(left),
        records_have_field_count(right),
        snapshot_counts_fit(left),
        snapshot_counts_fit(right),
        dictionaries_fit(encoders),
        batch_section_bytes(left, encoders) is Ok,
        batch_section_bytes(left, encoders) == batch_section_bytes(right, encoders),
        batch_section_bytes(left, encoders)->Ok_0.len() <= u64::MAX,
    ensures
        snapshot_matches(left, right),
{
    lemma_auto_spec_u64_to_from_le_bytes();
    let n = encoders.len();
    let fields_left = left.schema_fields@;
    let fields_right = right.schema_fields@;
    let rows_left = compact_u64_vec_bytes(left.row_ids@);
    let rows_right = compact_u64_vec_bytes(right.row_ids@);
    let columns_left = columns_bytes(left, encoders, n)->Ok_0;
    let columns_right = columns_bytes(right, encoders, n)->Ok_0;
    let count_left = spec_u64_to_le_bytes(left.records@.len() as u64);
    let count_right = spec_u64_to_le_bytes(right.records@.len() as u64);
    let after_left = rows_left + (count_left + columns_left);
    let after_right = rows_right + (count_right + columns_right);
    let head = section_magic(5) + spec_u64_to_le_bytes(n as u64);
    let bytes = batch_section_bytes(left, encoders)->Ok_0;
    assert(bytes =~= head + (compact_batch_fields_bytes(fields_left) + after_left));
    assert(bytes =~= head + (compact_batch_fields_bytes(fields_right) + after_right));
    lemma_concat_split(
        head,
        compact_batch_fields_bytes(fields_left) + after_left,
        head,
        compact_batch_fields_bytes(fields_right) + after_right,
    );
    assert(fields_left.subrange(0, n as int) =~= fields_left);
    assert(fields_right.subrange(0, n as int) =~= fields_right);
    lemma_compact_fields_unique_from(fields_left, fields_right, 0, after_left, after_right);
    lemma_compact_u64_vec_unique(
        left.row_ids@,
        right.row_ids@,
        count_left + columns_left,
        count_right + columns_right,
    );
    lemma_concat_split(count_left, columns_left, count_right, columns_right);
    assert(left.records@.len() == right.records@.len());
    assert forall|i: int| 0 <= i < n implies (#[trigger] fields_left[i]).field_type
        == fields_right[i].field_type by {
        assert(field_matches(fields_left[i], fields_right[i]));
    }
    assert(columns_bytes(left, encoders, 0) == Ok::<Seq<u8>, FSETypedQueryIndexArchiveCodecError>(
        Seq::empty(),
    ));
    assert(columns_bytes(right, encoders, 0) == Ok::<Seq<u8>, FSETypedQueryIndexArchiveCodecError>(
        Seq::empty(),
    ));
    assert(columns_left =~= columns_left + Seq::<u8>::empty());
    assert(columns_right =~= columns_right + Seq::<u8>::empty());
    lemma_columns_unique_from(left, right, encoders, 0, Seq::<u8>::empty(), Seq::<u8>::empty());
    assert forall|r: int| 0 <= r < left.records@.len() implies #[trigger] left.records@[r].values@.len()
        == right.records@[r].values@.len() by {
        assert(left.records@[r].values@.len() == n);
        assert(right.records@[r].values@.len() == n);
    }
    assert forall|r: int, f: int|
        0 <= r < left.records@.len() && 0 <= f < left.records@[r].values@.len() implies value_matches(
        #[trigger] left.records@[r].values@[f],
        right.records@[r].values@[f],
    ) by {
        assert(left.records@[r].values@.len() == n);
    }
}

pub(crate) proof fn lemma_snapshot_matches_trans(
    a: FSERecordBatchArchiveSnapshot,
    b: FSERecordBatchArchiveSnapshot,
    c: FSERecordBatchArchiveSnapshot,
)
    requires
        snapshot_matches(a, b),
        snapshot_matches(b, c),
    ensures
        snapshot_matches(a, c),
{
    assert forall|i: int| 0 <= i < a.schema_fields@.len() implies field_matches(
        #[trigger] a.schema_fields@[i],
        c.schema_fields@[i],
    ) by {
        assert(field_matches(a.schema_fields@[i], b.schema_fields@[i]));
        assert(field_matches(b.schema_fields@[i], c.schema_fields@[i]));
    }
    assert forall|r: int| 0 <= r < a.records@.len() implies #[trigger] a.records@[r].values@.len()
        == c.records@[r].values@.len() by {
        assert(a.records@[r].values@.len() == b.records@[r].values@.len());
        assert(b.records@[r].values@.len() == c.records@[r].values@.len());
    }
    assert forall|r: int, f: int|
        0 <= r < a.records@.len() && 0 <= f < a.records@[r].values@.len() implies value_matches(
        #[trigger] a.records@[r].values@[f],
        c.records@[r].values@[f],
    ) by {
        assert(a.records@[r].values@.len() == b.records@[r].values@.len());
        assert(value_matches(a.records@[r].values@[f], b.records@[r].values@[f]));
        assert(value_matches(b.records@[r].values@[f], c.records@[r].values@[f]));
    }
}

/// A columnar section starts with the columnar magic.
proof fn lemma_columnar_sections_start_with_magic(bytes: Seq<u8>, encoders: Seq<FSEFieldEncoderMetadata>)
    ensures
        forall|snapshot: FSERecordBatchArchiveSnapshot|
            #[trigger] batch_section_bytes(snapshot, encoders) == Ok::<
                Seq<u8>,
                FSETypedQueryIndexArchiveCodecError,
            >(bytes) ==> starts_with_section(bytes, 5),
{
    assert forall|snapshot: FSERecordBatchArchiveSnapshot|
        #[trigger] batch_section_bytes(snapshot, encoders) == Ok::<
            Seq<u8>,
            FSETypedQueryIndexArchiveCodecError,
        >(bytes) implies starts_with_section(bytes, 5) by {
        let fields = snapshot.schema_fields@;
        let columns = columns_bytes(snapshot, encoders, fields.len())->Ok_0;
        let rest = spec_u64_to_le_bytes(fields.len() as u64) + compact_batch_fields_bytes(fields)
            + compact_u64_vec_bytes(snapshot.row_ids@) + spec_u64_to_le_bytes(
            snapshot.records@.len() as u64,
        ) + columns;
        assert(bytes =~= section_magic(5) + rest);
        assert(bytes.subrange(0, 8) =~= section_magic(5));
    }
}

} // verus!
