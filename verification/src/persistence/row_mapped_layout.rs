//! Byte layout of a row-mapped index archive around its embedded index snapshot.
//!
//! The current layout starts with a magic, then the index snapshot bytes with
//! their length, the number of leaf records, and each leaf record as its node id
//! and a compact row-id list. Compact lists pick the shortest of three layouts:
//! fixed-width values, variable-length values, or zig-zag variable-length
//! differences between consecutive values. The legacy layout has no magic and
//! stores each row-id list as fixed-width values.
use vstd::bytes::*;
use vstd::prelude::*;

use crate::bytes::{lemma_u64s_le_bytes, u64_vec_bytes, u64s_le_bytes, write_bytes, write_u64, write_u64_vec};
use crate::compact::{
    compact_u64_vec_bytes, delta_at, delta_layout_chosen, delta_var_u64s_bytes, fits_i64,
    lemma_var_u64_round_trip, lemma_var_u64s_first, lemma_var_u64s_len, lemma_zig_zag_round_trip,
    row_id_vec_bytes, un_zig_zag, var_u64_bytes, var_u64s_bytes, write_row_id_vec, zig_zag,
    zig_zag_decode_i64, zig_zag_deltas, COMPACT_U64_VEC_DELTA_VARINT_MODE, COMPACT_U64_VEC_RAW_MODE,
    COMPACT_U64_VEC_VARINT_MODE, is_var_u64_chunk, lemma_var_u64_chunk, var_u64_chunk_value, var_u64_end_from,
};
use crate::cursor::{le_u64, ByteCursor, CursorError};

use super::batch_section::{
    lemma_compact_u64_vec_unique, lemma_concat_split, lemma_var_u64s_unique_from, lemma_zig_zag_unique,
    starts_with_magic, joined, lemma_joined_push, read_from_front, taken, var_u64s_read,
};
use super::query_index_codec::{lemma_starts_with_split, starts_with};
use super::row_mapped_codec::FSERowMappedArchiveCodecError;
use super::row_mapping::FSELeafRowIdArchiveRecord;

verus! {

/// Magic bytes of the current row-mapped archive layout.
pub const ROW_MAPPED_ARCHIVE_V2_MAGIC: [u8; 8] = [0x46, 0x53, 0x45, 0x52, 0x4d, 0x56, 0x30, 0x32];

/// Magic bytes of the current row-mapped archive layout, as a sequence.
pub open spec fn row_mapped_magic() -> Seq<u8> {
    seq![0x46u8, 0x53u8, 0x45u8, 0x52u8, 0x4du8, 0x56u8, 0x30u8, 0x32u8]
}

/// The codec error for a failed primitive read of `field`.
pub open spec fn row_mapped_read_error(error: CursorError, field: &'static str) -> FSERowMappedArchiveCodecError {
    match error {
        CursorError::UnexpectedEnd { needed, remaining } => {
            FSERowMappedArchiveCodecError::UnexpectedEndOfArchive { field, needed, remaining }
        },
        CursorError::LengthOutOfRange { length } => {
            FSERowMappedArchiveCodecError::LengthOutOfRange { field, length }
        },
        CursorError::InvalidUtf8 { .. } => FSERowMappedArchiveCodecError::LengthOutOfRange {
            field,
            length: 0,
        },
    }
}

fn lift(error: CursorError, field: &'static str) -> (lifted: FSERowMappedArchiveCodecError)
    ensures
        lifted == row_mapped_read_error(error, field),
{
    match error {
        CursorError::UnexpectedEnd { needed, remaining } => {
            FSERowMappedArchiveCodecError::UnexpectedEndOfArchive { field, needed, remaining }
        },
        CursorError::LengthOutOfRange { length } => {
            FSERowMappedArchiveCodecError::LengthOutOfRange { field, length }
        },
        CursorError::InvalidUtf8 { .. } => FSERowMappedArchiveCodecError::LengthOutOfRange {
            field,
            length: 0,
        },
    }
}

/// Bytes of one leaf record in the current layout.
pub open spec fn leaf_record_bytes(record: FSELeafRowIdArchiveRecord) -> Seq<u8> {
    spec_u64_to_le_bytes(record.node_id) + row_id_vec_bytes(record.row_ids@)
}

/// Bytes of one leaf record in the legacy layout.
pub open spec fn legacy_leaf_record_bytes(record: FSELeafRowIdArchiveRecord) -> Seq<u8> {
    spec_u64_to_le_bytes(record.node_id) + u64_vec_bytes(record.row_ids@)
}

/// Concatenated bytes of each leaf record, in the current layout or the legacy one.
pub open spec fn leaf_records_bytes(records: Seq<FSELeafRowIdArchiveRecord>, legacy: bool) -> Seq<u8>
    decreases records.len(),
{
    if records.len() == 0 {
        Seq::empty()
    } else {
        leaf_records_bytes(records.drop_last(), legacy) + if legacy {
            legacy_leaf_record_bytes(records.last())
        } else {
            leaf_record_bytes(records.last())
        }
    }
}

/// Bytes of a row-mapped archive in the current layout, around the bytes of its
/// index snapshot.
pub open spec fn row_mapped_archive_bytes(index: Seq<u8>, records: Seq<FSELeafRowIdArchiveRecord>) -> Seq<u8> {
    row_mapped_magic() + spec_u64_to_le_bytes(index.len() as u64) + index + spec_u64_to_le_bytes(
        records.len() as u64,
    ) + leaf_records_bytes(records, false)
}

/// Bytes of a row-mapped archive in the legacy layout.
pub open spec fn legacy_row_mapped_archive_bytes(
    index: Seq<u8>,
    records: Seq<FSELeafRowIdArchiveRecord>,
) -> Seq<u8> {
    spec_u64_to_le_bytes(index.len() as u64) + index + spec_u64_to_le_bytes(records.len() as u64)
        + leaf_records_bytes(records, true)
}

/// Two lists of leaf records hold the same node ids and row ids.
pub open spec fn leaf_records_match(
    left: Seq<FSELeafRowIdArchiveRecord>,
    right: Seq<FSELeafRowIdArchiveRecord>,
) -> bool {
    &&& left.len() == right.len()
    &&& forall|i: int|
        0 <= i < left.len() ==> #[trigger] left[i].node_id == right[i].node_id && left[i].row_ids@
            == right[i].row_ids@
}

/// Encodes a row-mapped archive in the current layout from the bytes of its
/// index snapshot and its leaf records.
pub fn encode_row_mapped_archive_parts(
    index_bytes: &[u8],
    leaf_row_id_records: &[FSELeafRowIdArchiveRecord],
) -> (bytes: Vec<u8>)
    ensures
        bytes@ == row_mapped_archive_bytes(index_bytes@, leaf_row_id_records@),
{
    let mut bytes: Vec<u8> = Vec::new();
    write_bytes(&mut bytes, &ROW_MAPPED_ARCHIVE_V2_MAGIC);
    assert(ROW_MAPPED_ARCHIVE_V2_MAGIC@ =~= row_mapped_magic());
    write_u64(&mut bytes, index_bytes.len() as u64);
    write_bytes(&mut bytes, index_bytes);
    write_u64(&mut bytes, leaf_row_id_records.len() as u64);
    let ghost head = bytes@;
    let mut index: usize = 0;
    while index < leaf_row_id_records.len()
        invariant
            index <= leaf_row_id_records@.len(),
            bytes@ == head + leaf_records_bytes(leaf_row_id_records@.subrange(0, index as int), false),
        decreases leaf_row_id_records@.len() - index,
    {
        let record = &leaf_row_id_records[index];
        write_u64(&mut bytes, record.node_id);
        write_row_id_vec(&mut bytes, record.row_ids.as_slice());
        proof {
            let next = leaf_row_id_records@.subrange(0, index + 1);
            assert(next.drop_last() =~= leaf_row_id_records@.subrange(0, index as int));
            assert(bytes@ =~= head + leaf_records_bytes(next, false));
        }
        index = index + 1;
    }
    assert(leaf_row_id_records@.subrange(0, leaf_row_id_records@.len() as int) =~= leaf_row_id_records@);
    assert(bytes@ =~= row_mapped_archive_bytes(index_bytes@, leaf_row_id_records@));
    bytes
}

/// The bytes are differences between consecutive values, each a zig-zag
/// variable-length chunk, as a reader takes them: every value is the one before
/// it (zero before the first) plus its difference.
#[verifier::opaque]
pub open spec fn delta_var_u64s_read(chunk: Seq<u8>, values: Seq<u64>) -> bool {
    exists|pieces: Seq<Seq<u8>>|
        #![trigger joined(pieces)]
        {
            &&& pieces.len() == values.len()
            &&& chunk == joined(pieces)
            &&& forall|i: int|
                0 <= i < pieces.len() ==> is_var_u64_chunk(#[trigger] pieces[i]) && values[i] as int == (if i
                    == 0 {
                    0
                } else {
                    values[i - 1] as int
                }) + un_zig_zag(var_u64_chunk_value(pieces[i])) as int
        }
}

/// The bytes are a row-id list in any of its three layouts, as a reader takes it.
#[verifier::opaque]
pub open spec fn row_id_list_read(chunk: Seq<u8>, values: Seq<u64>) -> bool {
    ||| chunk == seq![COMPACT_U64_VEC_RAW_MODE] + u64_vec_bytes(values)
    ||| {
        &&& chunk.len() >= 9
        &&& chunk.subrange(1, 9) == spec_u64_to_le_bytes(values.len() as u64)
        &&& {
            ||| chunk[0] == COMPACT_U64_VEC_VARINT_MODE && var_u64s_read(
                chunk.subrange(9, chunk.len() as int),
                values,
            )
            ||| chunk[0] == COMPACT_U64_VEC_DELTA_VARINT_MODE && delta_var_u64s_read(
                chunk.subrange(9, chunk.len() as int),
                values,
            )
        }
    }
}

/// The bytes are one leaf record, as a reader takes it: its node id, then its
/// row ids as a row-id list, or, in the legacy layout, as a count and eight
/// bytes per id.
pub open spec fn leaf_record_read(chunk: Seq<u8>, record: FSELeafRowIdArchiveRecord, legacy: bool) -> bool {
    &&& chunk.len() >= 8
    &&& chunk.subrange(0, 8) == spec_u64_to_le_bytes(record.node_id)
    &&& if legacy {
        chunk.subrange(8, chunk.len() as int) == u64_vec_bytes(record.row_ids@)
    } else {
        row_id_list_read(chunk.subrange(8, chunk.len() as int), record.row_ids@)
    }
}

/// The bytes are the leaf records, one after another, as a reader takes them.
#[verifier::opaque]
pub open spec fn leaf_records_read(chunk: Seq<u8>, records: Seq<FSELeafRowIdArchiveRecord>, legacy: bool) -> bool {
    exists|pieces: Seq<Seq<u8>>|
        #![trigger joined(pieces)]
        {
            &&& pieces.len() == records.len()
            &&& chunk == joined(pieces)
            &&& forall|i: int| 0 <= i < pieces.len() ==> leaf_record_read(#[trigger] pieces[i], records[i], legacy)
        }
}

/// The bytes are a row-mapped archive that a reader takes as the index bytes
/// and leaf records: the magic in the current layout, the length-prefixed
/// index bytes, the record count, then each leaf record.
pub open spec fn row_mapped_archive_read(
    bytes: Seq<u8>,
    index: Seq<u8>,
    records: Seq<FSELeafRowIdArchiveRecord>,
    legacy: bool,
) -> bool {
    let front = if legacy {
        Seq::<u8>::empty()
    } else {
        row_mapped_magic()
    };
    &&& bytes.len() >= front.len() + 16 + index.len()
    &&& bytes.subrange(0, (front.len() + 16 + index.len()) as int) == front + spec_u64_to_le_bytes(
        index.len() as u64,
    ) + index + spec_u64_to_le_bytes(records.len() as u64)
    &&& leaf_records_read(
        bytes.subrange((front.len() + 16 + index.len()) as int, bytes.len() as int),
        records,
        legacy,
    )
}

/// Reads a count and that many fixed-width values, checking first that the bytes
/// they need remain.
fn read_u64_list(cursor: &mut ByteCursor, field: &'static str, Ghost(target): Ghost<Option<Seq<u64>>>) -> (result: Result<
    Vec<u64>,
    FSERowMappedArchiveCodecError,
>)
    requires
        old(cursor).wf(),
        target matches Some(values) ==> starts_with(old(cursor).rest(), u64_vec_bytes(values)),
    ensures
        final(cursor).wf(),
        final(cursor).bytes@ == old(cursor).bytes@,
        target matches Some(values) ==> (result matches Ok(read) && read@ == values)
            && final(cursor).rest() == old(cursor).rest().subrange(
            u64_vec_bytes(values).len() as int,
            old(cursor).rest().len() as int,
        ),
        result matches Ok(read) ==> old(cursor).rest() == u64_vec_bytes(read@) + final(cursor).rest(),
{
    let ghost has_target = target is Some;
    let ghost values: Seq<u64> = match target {
        Some(values) => values,
        None => Seq::empty(),
    };
    let ghost start = cursor.rest();
    let ghost encoded = u64_vec_bytes(values);
    proof {
        lemma_auto_spec_u64_to_from_le_bytes();
        lemma_u64s_le_bytes(values);
        if has_target {
            assert(start.subrange(0, encoded.len() as int) == encoded);
            assert(start.subrange(0, 8) =~= encoded.subrange(0, 8));
            assert(encoded.subrange(0, 8) =~= spec_u64_to_le_bytes(values.len() as u64));
            assert(encoded.len() == 8 + 8 * values.len());
        }
    }
    let length = match cursor.read_len() {
        Ok(length) => length,
        Err(error) => return Err(lift(error, field)),
    };
    let byte_length = match length.checked_mul(8) {
        Some(byte_length) => byte_length,
        None => {
            return Err(FSERowMappedArchiveCodecError::LengthOutOfRange { field, length: length as u64 });
        },
    };
    if byte_length > cursor.remaining() {
        return Err(
            FSERowMappedArchiveCodecError::UnexpectedEndOfArchive {
                field,
                needed: byte_length,
                remaining: cursor.remaining(),
            },
        );
    }
    let ghost body = cursor.rest();
    proof {
        if has_target {
            let chunks = u64s_le_bytes(values);
            assert(body =~= start.subrange(8, start.len() as int));
            assert(body.subrange(0, chunks.len() as int) =~= encoded.subrange(8, encoded.len() as int));
            assert(encoded.subrange(8, encoded.len() as int) =~= chunks);
            assert forall|i: int| 0 <= i < values.len() implies #[trigger] body.subrange(
                8 * i,
                8 * i + 8,
            ) == spec_u64_to_le_bytes(values[i]) by {
                assert(body.subrange(8 * i, 8 * i + 8) =~= body.subrange(0, chunks.len() as int).subrange(
                    8 * i,
                    8 * i + 8,
                ));
            }
            assert(values.subrange(0, 0) =~= Seq::<u64>::empty());
        }
    }
    let mut read: Vec<u64> = Vec::with_capacity(length);
    let mut index: usize = 0;
    while index < length
        invariant
            cursor.wf(),
            cursor.bytes@ == old(cursor).bytes@,
            has_target == (target is Some),
            index <= length,
            read@.len() == index,
            body.len() >= 8 * length,
            cursor.rest() == body.subrange(8 * index, body.len() as int),
            body.subrange(0, 8 * index) == u64s_le_bytes(read@),
            has_target ==> {
                &&& length == values.len()
                &&& read@ == values.subrange(0, index as int)
                &&& forall|i: int|
                    0 <= i < values.len() ==> #[trigger] body.subrange(8 * i, 8 * i + 8)
                        == spec_u64_to_le_bytes(values[i])
            },
        decreases length - index,
    {
        proof {
            let rest = body.subrange(8 * index, body.len() as int);
            assert(rest.subrange(0, 8) =~= body.subrange(8 * index, 8 * index + 8));
        }
        let value = match cursor.read_u64() {
            Ok(value) => value,
            Err(error) => return Err(lift(error, field)),
        };
        proof {
            lemma_auto_spec_u64_to_from_le_bytes();
            assert(cursor.rest() =~= body.subrange(8 * (index + 1), body.len() as int));
            assert(body.subrange(0, 8 * (index + 1)) =~= body.subrange(0, 8 * index) + body.subrange(
                8 * index,
                8 * index + 8,
            ));
        }
        let ghost earlier = read@;
        read.push(value);
        proof {
            assert(read@.drop_last() =~= earlier);
            if has_target {
                assert(read@ =~= values.subrange(0, index + 1));
            }
        }
        index = index + 1;
    }
    proof {
        assert(start =~= start.subrange(0, 8) + body);
        assert(body =~= body.subrange(0, 8 * length) + cursor.rest());
        assert(start.subrange(0, 8) =~= spec_u64_to_le_bytes(length as u64));
        assert(start =~= u64_vec_bytes(read@) + cursor.rest());
        if has_target {
            assert(read@ =~= values);
            assert(cursor.rest() =~= start.subrange(encoded.len() as int, start.len() as int));
        }
    }
    Ok(read)
}

/// Reads `length` variable-length values.
fn read_var_u64_list(
    cursor: &mut ByteCursor,
    field: &'static str,
    length: usize,
    Ghost(target): Ghost<Option<Seq<u64>>>,
) -> (result: Result<Vec<u64>, FSERowMappedArchiveCodecError>)
    requires
        old(cursor).wf(),
        target matches Some(values) ==> values.len() == length && starts_with(
            old(cursor).rest(),
            var_u64s_bytes(values),
        ),
    ensures
        final(cursor).wf(),
        final(cursor).bytes@ == old(cursor).bytes@,
        target matches Some(values) ==> (result matches Ok(read) && read@ == values)
            && final(cursor).rest() == old(cursor).rest().subrange(
            var_u64s_bytes(values).len() as int,
            old(cursor).rest().len() as int,
        ),
        result matches Ok(read) ==> read@.len() == length,
        result matches Ok(read) ==> read_from_front(old(cursor).rest(), final(cursor).rest())
            && var_u64s_read(taken(old(cursor).rest(), final(cursor).rest()), read@),
{
    let ghost has_target = target is Some;
    let ghost values: Seq<u64> = match target {
        Some(values) => values,
        None => Seq::empty(),
    };
    let ghost start = cursor.rest();
    let ghost encoded = var_u64s_bytes(values);
    let ghost tail = start.subrange(encoded.len() as int, start.len() as int);
    proof {
        if has_target {
            assert(start =~= start.subrange(0, encoded.len() as int) + tail);
            assert(values.subrange(0, values.len() as int) =~= values);
            assert(values.subrange(0, 0) =~= Seq::<u64>::empty());
        }
    }
    let ghost mut position: int = 0;
    let ghost mut pieces: Seq<Seq<u8>> = Seq::empty();
    proof {
        assert(start.subrange(0, 0) =~= Seq::<u8>::empty());
        assert(start.subrange(0, start.len() as int) =~= start);
    }
    let mut read: Vec<u64> = Vec::with_capacity(length);
    let mut index: usize = 0;
    while index < length
        invariant
            cursor.wf(),
            cursor.bytes@ == old(cursor).bytes@,
            has_target == (target is Some),
            index <= length,
            read@.len() == index,
            0 <= position <= start.len(),
            cursor.rest() == start.subrange(position, start.len() as int),
            pieces.len() == index,
            start.subrange(0, position) == joined(pieces),
            forall|i: int|
                0 <= i < pieces.len() ==> is_var_u64_chunk(#[trigger] pieces[i]) && var_u64_chunk_value(
                    pieces[i],
                ) == read@[i],
            has_target ==> {
                &&& length == values.len()
                &&& cursor.rest() == var_u64s_bytes(values.subrange(index as int, values.len() as int))
                    + tail
                &&& read@ == values.subrange(0, index as int)
            },
        decreases length - index,
    {
        proof {
            if has_target {
                lemma_var_u64s_first(values, index as int);
                let later = var_u64s_bytes(values.subrange(index + 1, values.len() as int)) + tail;
                assert(cursor.rest() =~= var_u64_bytes(values[index as int]) + later);
                lemma_var_u64_round_trip(values[index as int], later);
            }
        }
        let ghost at = cursor.rest();
        let value = match cursor.read_var_u64() {
            Ok(value) => value,
            Err(error) => return Err(lift(error, field)),
        };
        let ghost next_position = position + (at.len() - cursor.rest().len());
        let ghost piece = at.subrange(0, at.len() - cursor.rest().len());
        proof {
            let end = var_u64_end_from(at, 0, 10)->0;
            lemma_var_u64_chunk(at, end);
            assert(piece =~= at.subrange(0, end + 1int));
            assert(piece =~= start.subrange(position, next_position));
            assert(cursor.rest() =~= start.subrange(next_position, start.len() as int));
            assert(start.subrange(0, next_position) =~= start.subrange(0, position) + piece);
            lemma_joined_push(pieces, piece);
        }
        read.push(value);
        proof {
            pieces = pieces.push(piece);
            position = next_position;
            if has_target {
                assert(read@ =~= values.subrange(0, index + 1));
            }
        }
        index = index + 1;
    }
    proof {
        assert(start =~= start.subrange(0, position) + cursor.rest());
        assert(taken(start, cursor.rest()) =~= joined(pieces));
        reveal(var_u64s_read);
        if has_target {
            assert(read@ =~= values);
            assert(values.subrange(values.len() as int, values.len() as int) =~= Seq::<u64>::empty());
        }
    }
    Ok(read)
}

/// Reads `length` values stored as zig-zag variable-length differences between
/// consecutive values. A running sum outside `i64`, or below zero, is an
/// out-of-range length.
fn read_delta_var_u64_list(
    cursor: &mut ByteCursor,
    field: &'static str,
    length: usize,
    Ghost(target): Ghost<Option<Seq<u64>>>,
) -> (result: Result<Vec<u64>, FSERowMappedArchiveCodecError>)
    requires
        old(cursor).wf(),
        target matches Some(values) ==> values.len() == length && fits_i64(values) && starts_with(
            old(cursor).rest(),
            delta_var_u64s_bytes(values),
        ),
    ensures
        final(cursor).wf(),
        final(cursor).bytes@ == old(cursor).bytes@,
        target matches Some(values) ==> (result matches Ok(read) && read@ == values)
            && final(cursor).rest() == old(cursor).rest().subrange(
            delta_var_u64s_bytes(values).len() as int,
            old(cursor).rest().len() as int,
        ),
        result matches Ok(read) ==> read@.len() == length,
        result matches Ok(read) ==> read_from_front(old(cursor).rest(), final(cursor).rest())
            && delta_var_u64s_read(taken(old(cursor).rest(), final(cursor).rest()), read@),
{
    let ghost has_target = target is Some;
    let ghost values: Seq<u64> = match target {
        Some(values) => values,
        None => Seq::empty(),
    };
    let ghost images = zig_zag_deltas(values);
    let ghost start = cursor.rest();
    let ghost encoded = var_u64s_bytes(images);
    let ghost tail = start.subrange(encoded.len() as int, start.len() as int);
    proof {
        if has_target {
            assert(start =~= start.subrange(0, encoded.len() as int) + tail);
            assert(images.subrange(0, images.len() as int) =~= images);
            assert(values.subrange(0, 0) =~= Seq::<u64>::empty());
        }
    }
    let ghost mut position: int = 0;
    let ghost mut pieces: Seq<Seq<u8>> = Seq::empty();
    proof {
        assert(start.subrange(0, 0) =~= Seq::<u8>::empty());
        assert(start.subrange(0, start.len() as int) =~= start);
    }
    let mut read: Vec<u64> = Vec::with_capacity(length);
    let mut previous: i64 = 0;
    let mut index: usize = 0;
    while index < length
        invariant
            cursor.wf(),
            cursor.bytes@ == old(cursor).bytes@,
            has_target == (target is Some),
            images == zig_zag_deltas(values),
            index <= length,
            read@.len() == index,
            0 <= position <= start.len(),
            cursor.rest() == start.subrange(position, start.len() as int),
            pieces.len() == index,
            start.subrange(0, position) == joined(pieces),
            previous as int == (if index == 0 { 0 } else { read@[index - 1] as int }),
            forall|i: int|
                0 <= i < pieces.len() ==> is_var_u64_chunk(#[trigger] pieces[i]) && read@[i] as int == (if i
                    == 0 {
                    0
                } else {
                    read@[i - 1] as int
                }) + un_zig_zag(var_u64_chunk_value(pieces[i])) as int,
            has_target ==> {
                &&& length == values.len()
                &&& fits_i64(values)
                &&& cursor.rest() == var_u64s_bytes(images.subrange(index as int, images.len() as int))
                    + tail
                &&& read@ == values.subrange(0, index as int)
                &&& previous == (if index == 0 { 0 } else { values[index - 1] as int })
            },
        decreases length - index,
    {
        proof {
            if has_target {
                lemma_var_u64s_first(images, index as int);
                let later = var_u64s_bytes(images.subrange(index + 1, images.len() as int)) + tail;
                assert(cursor.rest() =~= var_u64_bytes(images[index as int]) + later);
                lemma_var_u64_round_trip(images[index as int], later);
            }
        }
        let ghost at = cursor.rest();
        let image = match cursor.read_var_u64() {
            Ok(image) => image,
            Err(error) => return Err(lift(error, field)),
        };
        let ghost next_position = position + (at.len() - cursor.rest().len());
        let ghost piece = at.subrange(0, at.len() - cursor.rest().len());
        proof {
            let end = var_u64_end_from(at, 0, 10)->0;
            lemma_var_u64_chunk(at, end);
            assert(piece =~= at.subrange(0, end + 1int));
            assert(piece =~= start.subrange(position, next_position));
            assert(cursor.rest() =~= start.subrange(next_position, start.len() as int));
            assert(start.subrange(0, next_position) =~= start.subrange(0, position) + piece);
            lemma_joined_push(pieces, piece);
        }

        let delta = zig_zag_decode_i64(image);
        proof {
            if has_target {
                lemma_zig_zag_round_trip(delta_at(values, index as int), image);
                assert(values[index as int] <= i64::MAX);
            }
        }
        let current = match previous.checked_add(delta) {
            Some(current) => current,
            None => return Err(FSERowMappedArchiveCodecError::LengthOutOfRange { field, length: u64::MAX }),
        };
        if current < 0 {
            return Err(FSERowMappedArchiveCodecError::LengthOutOfRange { field, length: current as u64 });
        }
        let ghost earlier = read@;
        read.push(current as u64);
        proof {
            assert(read@[index as int] == current as u64);
            assert forall|i: int| 0 <= i < index implies read@[i] == earlier[i] by {}
            pieces = pieces.push(piece);
            position = next_position;
            if has_target {
                assert(read@ =~= values.subrange(0, index + 1));
            }
        }
        previous = current;
        index = index + 1;
    }
    proof {
        assert(start =~= start.subrange(0, position) + cursor.rest());
        assert(taken(start, cursor.rest()) =~= joined(pieces));
        reveal(delta_var_u64s_read);
        if has_target {
            assert(read@ =~= values);
            assert(images.subrange(images.len() as int, images.len() as int) =~= Seq::<u64>::empty());
        }
    }
    Ok(read)
}

/// Reads a compact row-id list in any of its three layouts.
fn read_row_id_vec(cursor: &mut ByteCursor, field: &'static str, Ghost(target): Ghost<Option<Seq<u64>>>) -> (result: Result<
    Vec<u64>,
    FSERowMappedArchiveCodecError,
>)
    requires
        old(cursor).wf(),
        target matches Some(values) ==> starts_with(old(cursor).rest(), row_id_vec_bytes(values)),
    ensures
        final(cursor).wf(),
        final(cursor).bytes@ == old(cursor).bytes@,
        target matches Some(values) ==> (result matches Ok(read) && read@ == values)
            && final(cursor).rest() == old(cursor).rest().subrange(
            row_id_vec_bytes(values).len() as int,
            old(cursor).rest().len() as int,
        ),
        result matches Ok(read) ==> read_from_front(old(cursor).rest(), final(cursor).rest())
            && row_id_list_read(taken(old(cursor).rest(), final(cursor).rest()), read@),
        old(cursor).rest().len() >= 1 && old(cursor).rest()[0] > COMPACT_U64_VEC_DELTA_VARINT_MODE
            ==> result == Err::<Vec<u64>, FSERowMappedArchiveCodecError>(
            FSERowMappedArchiveCodecError::InvalidCompactIntegerVectorMode {
                field,
                mode: old(cursor).rest()[0],
            },
        ),
{
    let ghost has_target = target is Some;
    let ghost values: Seq<u64> = match target {
        Some(values) => values,
        None => Seq::empty(),
    };
    let ghost start = cursor.rest();
    let ghost encoded = row_id_vec_bytes(values);
    let ghost delta = delta_layout_chosen(values);
    let ghost varint = var_u64s_bytes(values).len() < 8 * values.len();
    proof {
        lemma_auto_spec_u64_to_from_le_bytes();
        if has_target {
            lemma_var_u64s_len(values);
            lemma_u64s_le_bytes(values);
            assert(start[0] == encoded[0]);
        }
    }
    let mode = match cursor.read_u8() {
        Ok(mode) => mode,
        Err(error) => return Err(lift(error, field)),
    };
    let ghost after_mode = cursor.rest();
    proof {
        assert(after_mode =~= start.subrange(1, start.len() as int));
        if has_target {
            assert(after_mode =~= start.subrange(1, start.len() as int));
            assert(seq![encoded[0]] + encoded.subrange(1, encoded.len() as int) =~= encoded);
            lemma_starts_with_split(start, seq![encoded[0]], encoded.subrange(1, encoded.len() as int));
        }
    }
    if mode == COMPACT_U64_VEC_RAW_MODE {
        proof {
            if has_target {
                assert(!delta && !varint);
                assert(encoded =~= seq![COMPACT_U64_VEC_RAW_MODE] + u64_vec_bytes(values));
                assert(encoded.subrange(1, encoded.len() as int) =~= u64_vec_bytes(values));
            }
        }
        let result = read_u64_list(cursor, field, Ghost(target));
        proof {
            if result is Ok {
                let read = result->Ok_0;
                assert(start =~= seq![mode] + after_mode);
                assert(taken(start, cursor.rest()) =~= seq![COMPACT_U64_VEC_RAW_MODE] + u64_vec_bytes(read@));
                assert(start =~= taken(start, cursor.rest()) + cursor.rest());
                reveal(row_id_list_read);
            }
            if has_target {
                assert(cursor.rest() =~= start.subrange(encoded.len() as int, start.len() as int));
            }
        }
        result
    } else if mode == COMPACT_U64_VEC_VARINT_MODE || mode == COMPACT_U64_VEC_DELTA_VARINT_MODE {
        let ghost body_bytes = if delta {
            delta_var_u64s_bytes(values)
        } else {
            var_u64s_bytes(values)
        };
        proof {
            if has_target {
                assert(delta == (mode == COMPACT_U64_VEC_DELTA_VARINT_MODE));
                lemma_var_u64s_len(zig_zag_deltas(values));
                assert(values.len() <= start.len());
                assert(encoded =~= seq![mode] + spec_u64_to_le_bytes(values.len() as u64) + body_bytes);
                assert(encoded.subrange(1, encoded.len() as int) =~= spec_u64_to_le_bytes(
                    values.len() as u64,
                ) + body_bytes);
                lemma_starts_with_split(
                    after_mode,
                    spec_u64_to_le_bytes(values.len() as u64),
                    body_bytes,
                );
                assert(after_mode.subrange(0, 8) == spec_u64_to_le_bytes(values.len() as u64));
            }
        }
        let length = match cursor.read_len() {
            Ok(length) => length,
            Err(error) => return Err(lift(error, field)),
        };
        let ghost body = cursor.rest();
        proof {
            if has_target {
                assert(body =~= after_mode.subrange(8, after_mode.len() as int));
            }
        }
        let result = if mode == COMPACT_U64_VEC_VARINT_MODE {
            read_var_u64_list(cursor, field, length, Ghost(target))
        } else {
            read_delta_var_u64_list(cursor, field, length, Ghost(target))
        };
        proof {
            if result is Ok {
                let read = result->Ok_0;
                lemma_auto_spec_u64_to_from_le_bytes();
                let chunk = taken(start, cursor.rest());
                assert(start =~= seq![mode] + after_mode);
                assert(after_mode =~= after_mode.subrange(0, 8) + body);
                assert(after_mode.subrange(0, 8) =~= spec_u64_to_le_bytes(length as u64));
                assert(chunk =~= seq![mode] + after_mode.subrange(0, 8) + taken(body, cursor.rest()));
                assert(start =~= chunk + cursor.rest());
                assert(chunk.subrange(1, 9) =~= spec_u64_to_le_bytes(read@.len() as u64));
                assert(chunk.subrange(9, chunk.len() as int) =~= taken(body, cursor.rest()));
                reveal(row_id_list_read);
            }
            if has_target {
                assert(cursor.rest() =~= start.subrange(encoded.len() as int, start.len() as int));
            }
        }
        result
    } else {
        Err(FSERowMappedArchiveCodecError::InvalidCompactIntegerVectorMode { field, mode })
    }
}

/// Encoding a concatenation of leaf records concatenates their encodings.
proof fn lemma_leaf_records_concat(
    left: Seq<FSELeafRowIdArchiveRecord>,
    right: Seq<FSELeafRowIdArchiveRecord>,
    legacy: bool,
)
    ensures
        leaf_records_bytes(left + right, legacy) == leaf_records_bytes(left, legacy) + leaf_records_bytes(
            right,
            legacy,
        ),
    decreases right.len(),
{
    if right.len() == 0 {
        assert(left + right =~= left);
    } else {
        lemma_leaf_records_concat(left, right.drop_last(), legacy);
        assert((left + right).drop_last() =~= left + right.drop_last());
    }
}

/// The bytes of the records from `index` on: record `index`, then the rest.
proof fn lemma_leaf_records_first(records: Seq<FSELeafRowIdArchiveRecord>, index: int, legacy: bool)
    requires
        0 <= index < records.len(),
    ensures
        leaf_records_bytes(records.subrange(index, records.len() as int), legacy) == (if legacy {
            legacy_leaf_record_bytes(records[index])
        } else {
            leaf_record_bytes(records[index])
        }) + leaf_records_bytes(records.subrange(index + 1, records.len() as int), legacy),
{
    let tail = records.subrange(index + 1, records.len() as int);
    assert(records.subrange(index, records.len() as int) =~= seq![records[index]] + tail);
    lemma_leaf_records_concat(seq![records[index]], tail, legacy);
    reveal_with_fuel(leaf_records_bytes, 2);
    assert(seq![records[index]].drop_last() =~= Seq::<FSELeafRowIdArchiveRecord>::empty());
    assert(leaf_records_bytes(seq![records[index]], legacy) =~= (if legacy {
        legacy_leaf_record_bytes(records[index])
    } else {
        leaf_record_bytes(records[index])
    }));
}

/// Each leaf record takes at least eight bytes.
proof fn lemma_leaf_records_len(records: Seq<FSELeafRowIdArchiveRecord>, legacy: bool)
    ensures
        leaf_records_bytes(records, legacy).len() >= 8 * records.len(),
    decreases records.len(),
{
    if records.len() > 0 {
        lemma_auto_spec_u64_to_from_le_bytes();
        lemma_leaf_records_len(records.drop_last(), legacy);
        assert(spec_u64_to_le_bytes(records.last().node_id).len() == 8);
    }
}

/// Reads `count` leaf records in the current layout or the legacy one.
fn read_leaf_records(
    cursor: &mut ByteCursor,
    count: usize,
    legacy: bool,
    Ghost(target): Ghost<Option<Seq<FSELeafRowIdArchiveRecord>>>,
) -> (result: Result<Vec<FSELeafRowIdArchiveRecord>, FSERowMappedArchiveCodecError>)
    requires
        old(cursor).wf(),
        target matches Some(records) ==> records.len() == count && starts_with(
            old(cursor).rest(),
            leaf_records_bytes(records, legacy),
        ),
    ensures
        result matches Ok(read) ==> read@.len() == count && read_from_front(
            old(cursor).rest(),
            final(cursor).rest(),
        ) && leaf_records_read(taken(old(cursor).rest(), final(cursor).rest()), read@, legacy),
        final(cursor).wf(),
        final(cursor).bytes@ == old(cursor).bytes@,
        target matches Some(records) ==> (result matches Ok(read) && leaf_records_match(read@, records))
            && final(cursor).rest() == old(cursor).rest().subrange(
            leaf_records_bytes(records, legacy).len() as int,
            old(cursor).rest().len() as int,
        ),
{
    let ghost has_target = target is Some;
    let ghost records: Seq<FSELeafRowIdArchiveRecord> = match target {
        Some(records) => records,
        None => Seq::empty(),
    };
    let ghost start = cursor.rest();
    let ghost encoded = leaf_records_bytes(records, legacy);
    let ghost tail = start.subrange(encoded.len() as int, start.len() as int);
    proof {
        if has_target {
            assert(start =~= start.subrange(0, encoded.len() as int) + tail);
            assert(records.subrange(0, records.len() as int) =~= records);
        }
    }
    let ghost mut position: int = 0;
    let ghost mut pieces: Seq<Seq<u8>> = Seq::empty();
    proof {
        assert(start.subrange(0, 0) =~= Seq::<u8>::empty());
        assert(start.subrange(0, start.len() as int) =~= start);
    }
    let mut read: Vec<FSELeafRowIdArchiveRecord> = Vec::with_capacity(count);
    let mut index: usize = 0;
    while index < count
        invariant
            cursor.wf(),
            cursor.bytes@ == old(cursor).bytes@,
            has_target == (target is Some),
            index <= count,
            read@.len() == index,
            0 <= position <= start.len(),
            cursor.rest() == start.subrange(position, start.len() as int),
            pieces.len() == index,
            start.subrange(0, position) == joined(pieces),
            forall|i: int| 0 <= i < index ==> leaf_record_read(#[trigger] pieces[i], read@[i], legacy),
            has_target ==> {
                &&& count == records.len()
                &&& cursor.rest() == leaf_records_bytes(
                    records.subrange(index as int, records.len() as int),
                    legacy,
                ) + tail
                &&& forall|i: int|
                    0 <= i < index ==> #[trigger] read@[i].node_id == records[i].node_id
                        && read@[i].row_ids@ == records[i].row_ids@
            },
        decreases count - index,
    {
        let ghost record_bytes = if legacy {
            legacy_leaf_record_bytes(records[index as int])
        } else {
            leaf_record_bytes(records[index as int])
        };
        let ghost list_bytes = if legacy {
            u64_vec_bytes(records[index as int].row_ids@)
        } else {
            row_id_vec_bytes(records[index as int].row_ids@)
        };
        let ghost later = leaf_records_bytes(records.subrange(index + 1, records.len() as int), legacy)
            + tail;
        proof {
            lemma_auto_spec_u64_to_from_le_bytes();
            if has_target {
                lemma_leaf_records_first(records, index as int, legacy);
                assert(cursor.rest() =~= spec_u64_to_le_bytes(records[index as int].node_id) + (list_bytes
                    + later));
                assert(cursor.rest().subrange(0, 8) =~= spec_u64_to_le_bytes(records[index as int].node_id));
            }
        }
        let ghost at = cursor.rest();
        let node_id = match cursor.read_u64() {
            Ok(node_id) => node_id,
            Err(error) => return Err(lift(error, "row_mapped.leaf_row_id_record.node_id")),
        };
        let ghost list_target: Option<Seq<u64>> = if has_target {
            Some(records[index as int].row_ids@)
        } else {
            None
        };
        proof {
            if has_target {
                assert(cursor.rest() =~= list_bytes + later);
                assert(cursor.rest().subrange(0, list_bytes.len() as int) =~= list_bytes);
            }
        }
        let row_ids = if legacy {
            read_u64_list(cursor, "row_mapped.leaf_row_id_record.row_ids", Ghost(list_target))
        } else {
            read_row_id_vec(cursor, "row_mapped.leaf_row_id_record.row_ids", Ghost(list_target))
        };
        let row_ids = match row_ids {
            Ok(row_ids) => row_ids,
            Err(error) => return Err(error),
        };
        let ghost record = FSELeafRowIdArchiveRecord { node_id, row_ids };
        let ghost next_position = position + (at.len() - cursor.rest().len());
        let ghost piece = at.subrange(0, at.len() - cursor.rest().len());
        proof {
            lemma_auto_spec_u64_to_from_le_bytes();
            let after_id = at.subrange(8, at.len() as int);
            assert(at =~= at.subrange(0, 8) + after_id);
            assert(at.subrange(0, 8) =~= spec_u64_to_le_bytes(node_id));
            assert(piece =~= at.subrange(0, 8) + taken(after_id, cursor.rest()));
            assert(piece.subrange(0, 8) =~= at.subrange(0, 8));
            assert(piece.subrange(8, piece.len() as int) =~= taken(after_id, cursor.rest()));
            if legacy {
                assert(taken(after_id, cursor.rest()) =~= u64_vec_bytes(row_ids@));
            }
            assert(leaf_record_read(piece, record, legacy));
            assert(after_id =~= taken(after_id, cursor.rest()) + cursor.rest());
            assert(at =~= piece + cursor.rest());
            assert(piece =~= start.subrange(position, next_position));
            assert(cursor.rest() =~= at.subrange(piece.len() as int, at.len() as int));
            assert(at.subrange(piece.len() as int, at.len() as int) =~= start.subrange(
                next_position,
                start.len() as int,
            ));
            assert(start.subrange(0, next_position) =~= start.subrange(0, position) + piece);
            lemma_joined_push(pieces, piece);
        }
        proof {
            if has_target {
                assert(cursor.rest() =~= later);
            }
        }
        read.push(FSELeafRowIdArchiveRecord { node_id, row_ids });
        proof {
            pieces = pieces.push(piece);
            position = next_position;
        }
        index = index + 1;
    }
    proof {
        assert(start =~= start.subrange(0, position) + cursor.rest());
        assert(taken(start, cursor.rest()) =~= joined(pieces));
        reveal(leaf_records_read);
        if has_target {
            assert(records.subrange(records.len() as int, records.len() as int)
                =~= Seq::<FSELeafRowIdArchiveRecord>::empty());
            assert(cursor.rest() =~= tail);
        }
    }
    Ok(read)
}

/// The parts of a row-mapped archive: the bytes of its index snapshot and its
/// leaf records.
pub type RowMappedArchiveParts = (Vec<u8>, Vec<FSELeafRowIdArchiveRecord>);

/// The bytes are a row-mapped archive in the current layout followed by at
/// least one more byte.
pub open spec fn row_mapped_with_trailing_bytes(
    index: Seq<u8>,
    records: Seq<FSELeafRowIdArchiveRecord>,
    extra: Seq<u8>,
    bytes: Seq<u8>,
) -> bool {
    extra.len() > 0 && bytes == row_mapped_archive_bytes(index, records) + extra
}

/// Decodes the parts of a row-mapped archive, in either layout, toward `goal`
/// where it gives the parts and layout that `bytes` encode.
#[verifier::spinoff_prover]
#[verifier::rlimit(100)]
fn decode_parts_toward(
    bytes: &[u8],
    legacy: bool,
    Ghost(goal): Ghost<Option<(Seq<u8>, Seq<FSELeafRowIdArchiveRecord>, Seq<u8>)>>,
) -> (result: Result<RowMappedArchiveParts, FSERowMappedArchiveCodecError>)
    requires
        !legacy ==> bytes@.len() >= 8 && bytes@.subrange(0, 8) == row_mapped_magic(),
        goal matches Some((index, records, extra)) ==> bytes@ == if legacy {
            legacy_row_mapped_archive_bytes(index, records)
        } else {
            row_mapped_archive_bytes(index, records)
        } + extra,
    ensures
        goal matches Some((index, records, extra)) ==> (extra.len() == 0 ==> (result matches Ok(
            (index_bytes, read),
        ) && index_bytes@ == index && leaf_records_match(read@, records))),
        goal matches Some((index, records, extra)) ==> (extra.len() > 0 ==> result == Err::<
            RowMappedArchiveParts,
            FSERowMappedArchiveCodecError,
        >(FSERowMappedArchiveCodecError::TrailingBytes { remaining: extra.len() as usize })),
        result matches Ok((index_bytes, read)) ==> row_mapped_archive_read(bytes@, index_bytes@, read@, legacy),
        legacy && bytes@.len() < 8 ==> result == Err::<RowMappedArchiveParts, FSERowMappedArchiveCodecError>(
            FSERowMappedArchiveCodecError::UnexpectedEndOfArchive {
                field: "row_mapped.index_snapshot",
                needed: 8,
                remaining: bytes@.len() as usize,
            },
        ),
{
    let ghost has_target = goal is Some;
    let ghost index: Seq<u8> = match goal {
        Some((index, _, _)) => index,
        None => Seq::empty(),
    };
    let ghost records: Seq<FSELeafRowIdArchiveRecord> = match goal {
        Some((_, records, _)) => records,
        None => Seq::empty(),
    };
    let ghost extra: Seq<u8> = match goal {
        Some((_, _, extra)) => extra,
        None => Seq::empty(),
    };
    let ghost records_part = leaf_records_bytes(records, legacy);
    let mut cursor = ByteCursor::new(bytes);
    if !legacy {
        match cursor.read_exact(8) {
            Ok(_) => {},
            Err(error) => return Err(lift(error, "row_mapped.magic")),
        }
    }
    proof {
        lemma_auto_spec_u64_to_from_le_bytes();
        if has_target {
            lemma_leaf_records_len(records, legacy);
            assert(cursor.rest() =~= spec_u64_to_le_bytes(index.len() as u64) + index
                + spec_u64_to_le_bytes(records.len() as u64) + records_part + extra);
            assert(cursor.rest().subrange(0, 8) =~= spec_u64_to_le_bytes(index.len() as u64));
            assert(cursor.rest().subrange(8, 8 + index.len() as int) =~= index);
        }
    }
    let ghost at_index = cursor.rest();
    proof {
        if legacy {
            assert(at_index =~= bytes@);
        } else {
            assert(at_index =~= bytes@.subrange(8, bytes@.len() as int));
        }
    }
    let index_bytes = match cursor.read_byte_vec() {
        Ok(index_bytes) => index_bytes,
        Err(error) => return Err(lift(error, "row_mapped.index_snapshot")),
    };
    proof {
        if has_target {
            assert(cursor.rest() =~= spec_u64_to_le_bytes(records.len() as u64) + records_part + extra);
            assert(cursor.rest().subrange(0, 8) =~= spec_u64_to_le_bytes(records.len() as u64));
        }
    }
    let ghost at_count = cursor.rest();
    let count = match cursor.read_len() {
        Ok(count) => count,
        Err(error) => return Err(lift(error, "row_mapped.leaf_row_id_record_count")),
    };
    let ghost records_target: Option<Seq<FSELeafRowIdArchiveRecord>> = if has_target {
        Some(records)
    } else {
        None
    };
    proof {
        if has_target {
            assert(cursor.rest() =~= records_part + extra);
            assert(cursor.rest().subrange(0, records_part.len() as int) =~= records_part);
        }
    }
    let ghost at_records = cursor.rest();
    let leaf_row_id_records = match read_leaf_records(&mut cursor, count, legacy, Ghost(records_target)) {
        Ok(records) => records,
        Err(error) => return Err(error),
    };
    proof {
        if has_target {
            assert(cursor.rest() =~= extra);
        }
    }
    if cursor.remaining() != 0 {
        return Err(FSERowMappedArchiveCodecError::TrailingBytes { remaining: cursor.remaining() });
    }
    proof {
        lemma_row_mapped_read_assembled(
            bytes@,
            legacy,
            at_index,
            index_bytes@,
            at_count,
            at_records,
            cursor.rest(),
            leaf_row_id_records@,
        );
    }
    Ok((index_bytes, leaf_row_id_records))
}

proof fn lemma_row_mapped_read_assembled(
    bytes: Seq<u8>,
    legacy: bool,
    at_index: Seq<u8>,
    index: Seq<u8>,
    at_count: Seq<u8>,
    at_records: Seq<u8>,
    rest: Seq<u8>,
    records: Seq<FSELeafRowIdArchiveRecord>,
)
    requires
        legacy ==> at_index == bytes,
        !legacy ==> bytes.len() >= 8 && bytes.subrange(0, 8) == row_mapped_magic() && at_index
            == bytes.subrange(8, bytes.len() as int),
        at_index.len() >= 8,
        le_u64(at_index) == index.len(),
        8 + index.len() <= at_index.len(),
        index == at_index.subrange(8, 8 + index.len() as int),
        at_count == at_index.subrange(8 + index.len() as int, at_index.len() as int),
        at_count.len() >= 8,
        le_u64(at_count) == records.len(),
        at_records == at_count.subrange(8, at_count.len() as int),
        rest.len() == 0,
        read_from_front(at_records, rest),
        leaf_records_read(taken(at_records, rest), records, legacy),
    ensures
        row_mapped_archive_read(bytes, index, records, legacy),
{
    lemma_auto_spec_u64_to_from_le_bytes();
    let front = if legacy {
        Seq::<u8>::empty()
    } else {
        row_mapped_magic()
    };
    let n = index.len();
    assert(at_index.subrange(0, 8) =~= spec_u64_to_le_bytes(n as u64));
    assert(at_index =~= at_index.subrange(0, 8) + index + at_count);
    assert(at_count.subrange(0, 8) =~= spec_u64_to_le_bytes(records.len() as u64));
    assert(at_count =~= at_count.subrange(0, 8) + at_records);
    assert(taken(at_records, rest) =~= at_records);
    assert(bytes =~= front + at_index);
    assert(bytes.subrange(0, (front.len() + 16 + n) as int) =~= front + spec_u64_to_le_bytes(n as u64)
        + index + spec_u64_to_le_bytes(records.len() as u64));
    assert(bytes.subrange((front.len() + 16 + n) as int, bytes.len() as int) =~= at_records);
}

/// Leaf records that match encode alike.
proof fn lemma_matching_leaf_records_encode_alike(
    left: Seq<FSELeafRowIdArchiveRecord>,
    right: Seq<FSELeafRowIdArchiveRecord>,
    legacy: bool,
)
    requires
        leaf_records_match(left, right),
    ensures
        leaf_records_bytes(left, legacy) == leaf_records_bytes(right, legacy),
    decreases left.len(),
{
    if left.len() > 0 {
        assert(leaf_records_match(left.drop_last(), right.drop_last()));
        lemma_matching_leaf_records_encode_alike(left.drop_last(), right.drop_last(), legacy);
        assert(left.last().node_id == right.last().node_id);
    }
}

/// Decodes the parts of a row-mapped archive: the bytes of its index snapshot
/// and its leaf records. Bytes that start with the current magic are read in the
/// current layout, other bytes in the legacy layout. Decoding what either layout
/// encoded succeeds, with parts that encode to the same bytes, and gives back
/// the index bytes and leaf records of one such encoding; parts are returned
/// only when the bytes read as them in the layout that the magic selects
/// (`row_mapped_archive_read`). Input shorter than
/// a length prefix is refused as ending early, and a current-layout archive
/// followed by more bytes is refused with the count of those bytes. The parts
/// are not checked against each other here.
pub fn decode_row_mapped_archive_parts(bytes: &[u8]) -> (result: Result<
    RowMappedArchiveParts,
    FSERowMappedArchiveCodecError,
>)
    ensures
        forall|index: Seq<u8>, records: Seq<FSELeafRowIdArchiveRecord>|
            #[trigger] row_mapped_archive_bytes(index, records) == bytes@ ==> (result matches Ok(
                (index_bytes, read),
            ) && row_mapped_archive_bytes(index_bytes@, read@) == bytes@),
        !(bytes@.len() >= 8 && bytes@.subrange(0, 8) == row_mapped_magic()) ==> forall|
            index: Seq<u8>,
            records: Seq<FSELeafRowIdArchiveRecord>,
        |
            #[trigger] legacy_row_mapped_archive_bytes(index, records) == bytes@ ==> (result matches Ok(
                (index_bytes, read),
            ) && legacy_row_mapped_archive_bytes(index_bytes@, read@) == bytes@),
        (exists|index: Seq<u8>, records: Seq<FSELeafRowIdArchiveRecord>|
            #[trigger] row_mapped_archive_bytes(index, records) == bytes@) ==> (result matches Ok(
            (index_bytes, read),
        ) && exists|records: Seq<FSELeafRowIdArchiveRecord>|
            #[trigger] row_mapped_archive_bytes(index_bytes@, records) == bytes@ && leaf_records_match(
                read@,
                records,
            )),
        forall|index: Seq<u8>, records: Seq<FSELeafRowIdArchiveRecord>|
            #[trigger] row_mapped_archive_bytes(index, records) == bytes@ ==> (result matches Ok(
                (index_bytes, read),
            ) && index_bytes@ == index && leaf_records_match(read@, records)),
        bytes@.len() < 8 ==> result == Err::<RowMappedArchiveParts, FSERowMappedArchiveCodecError>(
            FSERowMappedArchiveCodecError::UnexpectedEndOfArchive {
                field: "row_mapped.index_snapshot",
                needed: 8,
                remaining: bytes@.len() as usize,
            },
        ),
        result matches Ok((index_bytes, read)) ==> row_mapped_archive_read(
            bytes@,
            index_bytes@,
            read@,
            !(bytes@.len() >= 8 && bytes@.subrange(0, 8) == row_mapped_magic()),
        ),
        (exists|index: Seq<u8>, records: Seq<FSELeafRowIdArchiveRecord>, extra: Seq<u8>|
            #[trigger] row_mapped_with_trailing_bytes(index, records, extra, bytes@)) ==> (result matches Err(
            FSERowMappedArchiveCodecError::TrailingBytes { remaining },
        ) && exists|index: Seq<u8>, records: Seq<FSELeafRowIdArchiveRecord>, extra: Seq<u8>|
            #[trigger] row_mapped_with_trailing_bytes(index, records, extra, bytes@) && remaining
                == extra.len()),
{
    let current = starts_with_magic(bytes, &ROW_MAPPED_ARCHIVE_V2_MAGIC);
    assert(ROW_MAPPED_ARCHIVE_V2_MAGIC@ =~= row_mapped_magic());
    let ghost has_goal = if current {
        exists|index: Seq<u8>, records: Seq<FSELeafRowIdArchiveRecord>|
            #[trigger] row_mapped_archive_bytes(index, records) == bytes@
    } else {
        exists|index: Seq<u8>, records: Seq<FSELeafRowIdArchiveRecord>|
            #[trigger] legacy_row_mapped_archive_bytes(index, records) == bytes@
    };
    let ghost trailing = exists|index: Seq<u8>, records: Seq<FSELeafRowIdArchiveRecord>, extra: Seq<u8>|
        #[trigger] row_mapped_with_trailing_bytes(index, records, extra, bytes@);
    let ghost goal: Option<(Seq<u8>, Seq<FSELeafRowIdArchiveRecord>, Seq<u8>)> = if has_goal {
        let (index, records) = if current {
            choose|index: Seq<u8>, records: Seq<FSELeafRowIdArchiveRecord>|
                #[trigger] row_mapped_archive_bytes(index, records) == bytes@
        } else {
            choose|index: Seq<u8>, records: Seq<FSELeafRowIdArchiveRecord>|
                #[trigger] legacy_row_mapped_archive_bytes(index, records) == bytes@
        };
        Some((index, records, Seq::<u8>::empty()))
    } else if trailing {
        Some(
            choose|index: Seq<u8>, records: Seq<FSELeafRowIdArchiveRecord>, extra: Seq<u8>|
                #[trigger] row_mapped_with_trailing_bytes(index, records, extra, bytes@),
        )
    } else {
        None
    };
    proof {
        if has_goal {
            let (index, records, extra) = goal->0;
            if current {
                assert(row_mapped_archive_bytes(index, records) + extra =~= bytes@);
            } else {
                assert(legacy_row_mapped_archive_bytes(index, records) + extra =~= bytes@);
            }
        }
        if has_goal && current {
            let (index, records, _) = goal->0;
            assert(row_mapped_archive_bytes(index, records) == bytes@);
            assert(bytes@.subrange(0, 8) =~= row_mapped_magic());
        }
        if trailing {
            let (index, records, extra) = choose|index: Seq<u8>, records: Seq<FSELeafRowIdArchiveRecord>, extra: Seq<u8>|
                #[trigger] row_mapped_with_trailing_bytes(index, records, extra, bytes@);
            assert(bytes@.subrange(0, 8) =~= row_mapped_magic());
            assert(current);
            if has_goal {
                let (exact_index, exact_records, _) = goal->0;
                assert(bytes@.len() == bytes.len());
                assert(row_mapped_archive_bytes(exact_index, exact_records) + Seq::<u8>::empty() =~= bytes@);
                lemma_row_mapped_bytes_unique_with_tails(
                    exact_index,
                    exact_records,
                    index,
                    records,
                    Seq::<u8>::empty(),
                    extra,
                );
            }
        }
        assert forall|index: Seq<u8>, records: Seq<FSELeafRowIdArchiveRecord>|
            #[trigger] row_mapped_archive_bytes(index, records) == bytes@ implies current by {
            assert(bytes@.subrange(0, 8) =~= row_mapped_magic());
        }
    }
    let byte_count = bytes.len();
    let result = decode_parts_toward(bytes, !current, Ghost(goal));
    proof {
        if has_goal {
            let (index, records, _) = goal->0;
            let (index_bytes, read) = result->Ok_0;
            lemma_matching_leaf_records_encode_alike(read@, records, !current);
            assert(read@.len() == records.len());
            if current {
                assert forall|other_index: Seq<u8>, other_records: Seq<FSELeafRowIdArchiveRecord>|
                    #[trigger] row_mapped_archive_bytes(other_index, other_records) == bytes@ implies (
                result matches Ok((got_index, got_records)) && got_index@ == other_index
                    && leaf_records_match(got_records@, other_records)) by {
                    assert(bytes@.len() == byte_count);
                    lemma_row_mapped_archive_bytes_injective(index, records, other_index, other_records);
                    assert forall|i: int| 0 <= i < read@.len() implies #[trigger] read@[i].node_id
                        == other_records[i].node_id && read@[i].row_ids@ == other_records[i].row_ids@ by {
                        assert(read@[i].node_id == records[i].node_id);
                        assert(records[i].node_id == other_records[i].node_id);
                    }
                    assert(leaf_records_match(read@, other_records));
                    assert(index_bytes@ == other_index);
                }
            }
        }
    }
    result
}

proof fn lemma_zig_zag_deltas_unique(a: Seq<u64>, b: Seq<u64>, count: int)
    requires
        a.len() == b.len(),
        0 <= count <= a.len(),
        fits_i64(a),
        fits_i64(b),
        zig_zag_deltas(a) == zig_zag_deltas(b),
    ensures
        forall|i: int| 0 <= i < count ==> a[i] == b[i],
    decreases count,
{
    if count > 0 {
        let k = count - 1;
        lemma_zig_zag_deltas_unique(a, b, k);
        assert(zig_zag_deltas(a)[k] == zig_zag_deltas(b)[k]);
        assert(zig_zag_deltas(a)[k] == zig_zag(delta_at(a, k)));
        assert(zig_zag_deltas(b)[k] == zig_zag(delta_at(b, k)));
        lemma_zig_zag_unique(delta_at(a, k), delta_at(b, k));
        assert(a[k] <= i64::MAX && b[k] <= i64::MAX);
        if k > 0 {
            assert(a[k - 1] == b[k - 1]);
            assert(a[k - 1] <= i64::MAX);
        }
    }
}

proof fn lemma_row_id_vec_unique(a: Seq<u64>, b: Seq<u64>, x: Seq<u8>, y: Seq<u8>)
    requires
        row_id_vec_bytes(a) + x == row_id_vec_bytes(b) + y,
        (row_id_vec_bytes(a) + x).len() <= u64::MAX,
    ensures
        a == b,
        x == y,
{
    lemma_auto_spec_u64_to_from_le_bytes();
    let ea = row_id_vec_bytes(a);
    let eb = row_id_vec_bytes(b);
    assert((ea + x)[0] == ea[0]);
    assert((eb + y)[0] == eb[0]);
    let da = delta_layout_chosen(a);
    let db = delta_layout_chosen(b);
    if da && db {
        let za = zig_zag_deltas(a);
        let zb = zig_zag_deltas(b);
        let ca = spec_u64_to_le_bytes(a.len() as u64);
        let cb = spec_u64_to_le_bytes(b.len() as u64);
        assert(ca.len() == 8 && cb.len() == 8);
        assert(ea + x =~= seq![COMPACT_U64_VEC_DELTA_VARINT_MODE] + (ca + (var_u64s_bytes(za) + x)));
        assert(eb + y =~= seq![COMPACT_U64_VEC_DELTA_VARINT_MODE] + (cb + (var_u64s_bytes(zb) + y)));
        lemma_concat_split(
            seq![COMPACT_U64_VEC_DELTA_VARINT_MODE],
            ca + (var_u64s_bytes(za) + x),
            seq![COMPACT_U64_VEC_DELTA_VARINT_MODE],
            cb + (var_u64s_bytes(zb) + y),
        );
        lemma_concat_split(ca, var_u64s_bytes(za) + x, cb, var_u64s_bytes(zb) + y);
        lemma_var_u64s_len(za);
        lemma_var_u64s_len(zb);
        assert(za.len() == a.len() && zb.len() == b.len());
        assert(a.len() <= u64::MAX);
        assert(b.len() <= u64::MAX);
        assert(a.len() == b.len());
        assert(za.subrange(0, za.len() as int) =~= za);
        assert(zb.subrange(0, zb.len() as int) =~= zb);
        lemma_var_u64s_unique_from(za, zb, 0, x, y);
        lemma_zig_zag_deltas_unique(a, b, a.len() as int);
        assert(a =~= b);
    } else if !da && !db {
        lemma_compact_u64_vec_unique(a, b, x, y);
    } else {
        lemma_var_u64s_len(a);
        lemma_var_u64s_len(b);
        assert(compact_u64_vec_bytes(a)[0] != COMPACT_U64_VEC_DELTA_VARINT_MODE);
        assert(compact_u64_vec_bytes(b)[0] != COMPACT_U64_VEC_DELTA_VARINT_MODE);
    }
}

proof fn lemma_leaf_records_unique_from(
    a: Seq<FSELeafRowIdArchiveRecord>,
    b: Seq<FSELeafRowIdArchiveRecord>,
    index: int,
    x: Seq<u8>,
    y: Seq<u8>,
)
    requires
        a.len() == b.len(),
        0 <= index <= a.len(),
        leaf_records_bytes(a.subrange(index, a.len() as int), false) + x == leaf_records_bytes(
            b.subrange(index, b.len() as int),
            false,
        ) + y,
        (leaf_records_bytes(a.subrange(index, a.len() as int), false) + x).len() <= u64::MAX,
    ensures
        forall|i: int|
            index <= i < a.len() ==> #[trigger] a[i].node_id == b[i].node_id && a[i].row_ids@
                == b[i].row_ids@,
        x == y,
    decreases a.len() - index,
{
    lemma_auto_spec_u64_to_from_le_bytes();
    if index == a.len() {
        assert(a.subrange(index, a.len() as int) =~= Seq::<FSELeafRowIdArchiveRecord>::empty());
        assert(b.subrange(index, b.len() as int) =~= Seq::<FSELeafRowIdArchiveRecord>::empty());
        assert(x =~= Seq::<u8>::empty() + x);
        assert(y =~= Seq::<u8>::empty() + y);
    } else {
        lemma_leaf_records_first(a, index, false);
        lemma_leaf_records_first(b, index, false);
        let rest_a = leaf_records_bytes(a.subrange(index + 1, a.len() as int), false);
        let rest_b = leaf_records_bytes(b.subrange(index + 1, b.len() as int), false);
        let na = spec_u64_to_le_bytes(a[index].node_id);
        let nb = spec_u64_to_le_bytes(b[index].node_id);
        assert(na.len() == 8 && nb.len() == 8);
        let va = row_id_vec_bytes(a[index].row_ids@);
        let vb = row_id_vec_bytes(b[index].row_ids@);
        assert((leaf_record_bytes(a[index]) + rest_a) + x =~= na + (va + (rest_a + x)));
        assert((leaf_record_bytes(b[index]) + rest_b) + y =~= nb + (vb + (rest_b + y)));
        lemma_concat_split(na, va + (rest_a + x), nb, vb + (rest_b + y));
        lemma_row_id_vec_unique(a[index].row_ids@, b[index].row_ids@, rest_a + x, rest_b + y);
        lemma_leaf_records_unique_from(a, b, index + 1, x, y);
    }
}

/// Two current-layout archives, each followed by more bytes, that give the
/// same bytes together hold the same parts and are followed by the same bytes.
proof fn lemma_row_mapped_bytes_unique_with_tails(
    index_left: Seq<u8>,
    records_left: Seq<FSELeafRowIdArchiveRecord>,
    index_right: Seq<u8>,
    records_right: Seq<FSELeafRowIdArchiveRecord>,
    x: Seq<u8>,
    y: Seq<u8>,
)
    requires
        row_mapped_archive_bytes(index_left, records_left) + x == row_mapped_archive_bytes(
            index_right,
            records_right,
        ) + y,
        (row_mapped_archive_bytes(index_left, records_left) + x).len() <= u64::MAX,
    ensures
        index_left == index_right,
        leaf_records_match(records_left, records_right),
        x == y,
{
    lemma_auto_spec_u64_to_from_le_bytes();
    lemma_leaf_records_len(records_left, false);
    lemma_leaf_records_len(records_right, false);
    let li = spec_u64_to_le_bytes(index_left.len() as u64);
    let ri = spec_u64_to_le_bytes(index_right.len() as u64);
    let lc = spec_u64_to_le_bytes(records_left.len() as u64);
    let rc = spec_u64_to_le_bytes(records_right.len() as u64);
    let lr = leaf_records_bytes(records_left, false);
    let rr = leaf_records_bytes(records_right, false);
    assert(li.len() == 8 && ri.len() == 8 && lc.len() == 8 && rc.len() == 8);
    assert(row_mapped_archive_bytes(index_left, records_left) + x =~= row_mapped_magic() + (li + (
    index_left + (lc + (lr + x)))));
    assert(row_mapped_archive_bytes(index_right, records_right) + y =~= row_mapped_magic() + (ri + (
    index_right + (rc + (rr + y)))));
    lemma_concat_split(row_mapped_magic(), li + (index_left + (lc + (lr + x))), row_mapped_magic(), ri + (
    index_right + (rc + (rr + y))));
    lemma_concat_split(li, index_left + (lc + (lr + x)), ri, index_right + (rc + (rr + y)));
    assert(index_left.len() == index_right.len());
    lemma_concat_split(index_left, lc + (lr + x), index_right, rc + (rr + y));
    lemma_concat_split(lc, lr + x, rc, rr + y);
    assert(records_left.len() == records_right.len());
    assert(records_left.subrange(0, records_left.len() as int) =~= records_left);
    assert(records_right.subrange(0, records_right.len() as int) =~= records_right);
    lemma_leaf_records_unique_from(records_left, records_right, 0, x, y);
}

/// A row-mapped archive in the current layout determines its parts: equal
/// archive bytes hold the same index bytes and the same leaf records.
pub proof fn lemma_row_mapped_archive_bytes_injective(
    index_left: Seq<u8>,
    records_left: Seq<FSELeafRowIdArchiveRecord>,
    index_right: Seq<u8>,
    records_right: Seq<FSELeafRowIdArchiveRecord>,
)
    requires
        row_mapped_archive_bytes(index_left, records_left) == row_mapped_archive_bytes(
            index_right,
            records_right,
        ),
        row_mapped_archive_bytes(index_left, records_left).len() <= u64::MAX,
    ensures
        index_left == index_right,
        leaf_records_match(records_left, records_right),
{
    let left = row_mapped_archive_bytes(index_left, records_left);
    let right = row_mapped_archive_bytes(index_right, records_right);
    assert(left + Seq::<u8>::empty() =~= left);
    assert(right + Seq::<u8>::empty() =~= right);
    lemma_row_mapped_bytes_unique_with_tails(
        index_left,
        records_left,
        index_right,
        records_right,
        Seq::<u8>::empty(),
        Seq::<u8>::empty(),
    );
}

} // verus!
