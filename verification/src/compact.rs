//! Variable-length and zig-zag integer encodings used by the compact archive layouts.
use vstd::bytes::*;
use vstd::prelude::*;

use crate::bytes::{u64_vec_bytes, write_u64, write_u64_vec, write_u8};

verus! {

/// Mode byte of a compact `u64` list stored as fixed-width little-endian values.
pub const COMPACT_U64_VEC_RAW_MODE: u8 = 0;

/// Mode byte of a compact `u64` list stored as variable-length values.
pub const COMPACT_U64_VEC_VARINT_MODE: u8 = 1;

/// Mode byte of a compact `u64` list stored as zig-zag variable-length
/// differences between consecutive values.
pub const COMPACT_U64_VEC_DELTA_VARINT_MODE: u8 = 2;

/// Bytes of the variable-length encoding of `value`: seven bits per byte, lowest
/// group first, with the high bit set on every byte but the last.
pub open spec fn var_u64_bytes(value: u64) -> Seq<u8>
    decreases value,
{
    if value < 128 {
        seq![value as u8]
    } else {
        seq![(value % 128 + 128) as u8] + var_u64_bytes(value / 128)
    }
}

/// `128` raised to `exponent`.
pub open spec fn pow128(exponent: nat) -> nat
    decreases exponent,
{
    if exponent == 0 {
        1
    } else {
        128 * pow128((exponent - 1) as nat)
    }
}

proof fn lemma_var_u64_len_bound(value: u64, groups: nat)
    requires
        groups >= 1,
        value < pow128(groups),
    ensures
        var_u64_bytes(value).len() <= groups,
    decreases value,
{
    if value >= 128 {
        if groups == 1 {
            assert(pow128(1) == 128 * pow128(0));
        }
        let smaller = pow128((groups - 1) as nat);
        assert(value / 128 < smaller) by (nonlinear_arith)
            requires
                value < 128 * smaller,
        ;
        lemma_var_u64_len_bound(value / 128, (groups - 1) as nat);
    }
}

/// Every value takes between one and ten bytes.
pub proof fn lemma_var_u64_len(value: u64)
    ensures
        1 <= var_u64_bytes(value).len() <= 10,
{
    reveal_with_fuel(pow128, 11);
    assert(pow128(10) == 1180591620717411303424nat);
    lemma_var_u64_len_bound(value, 10);
}

/// Appends the variable-length encoding of `value`.
pub fn write_var_u64(out: &mut Vec<u8>, value: u64)
    ensures
        final(out)@ == old(out)@ + var_u64_bytes(value),
{
    let mut rest = value;
    loop
        invariant_except_break
            out@ + var_u64_bytes(rest) == old(out)@ + var_u64_bytes(value),
        ensures
            out@ == old(out)@ + var_u64_bytes(value),
        decreases rest,
    {
        let low: u8 = (rest % 128) as u8;
        let next = rest / 128;
        if next != 0 {
            let ghost before = out@;
            out.push(low + 128);
            proof {
                assert(var_u64_bytes(rest) == seq![(low + 128) as u8] + var_u64_bytes(next));
                assert(before + var_u64_bytes(rest) =~= out@ + var_u64_bytes(next));
            }
            rest = next;
        } else {
            out.push(low);
            break ;
        }
    }
}

/// Returns the number of bytes in the variable-length encoding of `value`.
pub fn var_u64_len(value: u64) -> (len: usize)
    ensures
        len == var_u64_bytes(value).len(),
        1 <= len <= 10,
{
    proof {
        lemma_var_u64_len(value);
    }
    let mut rest = value;
    let mut len: usize = 1;
    while rest >= 128
        invariant
            1 <= len,
            len + var_u64_bytes(rest).len() == var_u64_bytes(value).len() + 1,
            var_u64_bytes(value).len() <= 10,
        decreases rest,
    {
        proof {
            lemma_var_u64_len(rest / 128);
        }
        rest = rest / 128;
        len = len + 1;
    }
    len
}

/// Index of the first byte at or after `index` and before `limit` whose high
/// bit is clear, if such a byte exists.
pub open spec fn var_u64_end_from(bytes: Seq<u8>, index: nat, limit: nat) -> Option<nat>
    decreases limit - index,
{
    if index >= limit || index >= bytes.len() {
        None
    } else if bytes[index as int] < 128 {
        Some(index)
    } else {
        var_u64_end_from(bytes, index + 1, limit)
    }
}

/// Value assembled from the low seven bits of the first `count` bytes, lowest
/// group first, as a `u64` (bits beyond the sixty-fourth are dropped).
pub open spec fn var_u64_prefix_value(bytes: Seq<u8>, count: nat) -> u64
    decreases count,
{
    if count == 0 {
        0
    } else {
        var_u64_prefix_value(bytes, (count - 1) as nat) | (((bytes[count - 1] & 0x7f) as u64) << ((7
            * (count - 1)) as u64))
    }
}

/// The bytes are exactly one variable-length value as a reader takes it: the
/// last byte is the first, within ten, whose high bit is clear.
pub open spec fn is_var_u64_chunk(chunk: Seq<u8>) -> bool {
    chunk.len() >= 1 && var_u64_end_from(chunk, 0, 10) == Some((chunk.len() - 1) as nat)
}

/// The value a reader takes from a variable-length chunk.
pub open spec fn var_u64_chunk_value(chunk: Seq<u8>) -> u64 {
    var_u64_prefix_value(chunk, chunk.len())
}

proof fn lemma_end_from_prefix(bytes: Seq<u8>, end: nat, index: nat)
    requires
        index <= end,
        end < bytes.len(),
        var_u64_end_from(bytes, index, 10) == Some(end),
    ensures
        var_u64_end_from(bytes.subrange(0, end + 1int), index, 10) == Some(end),
    decreases end - index,
{
    let chunk = bytes.subrange(0, end + 1int);
    assert(chunk[index as int] == bytes[index as int]);
    if bytes[index as int] >= 128 {
        lemma_end_from_bounds(bytes, index + 1, 10);
        lemma_end_from_prefix(bytes, end, index + 1);
    }
}

proof fn lemma_prefix_value_prefix(bytes: Seq<u8>, chunk: Seq<u8>, count: nat)
    requires
        count <= chunk.len(),
        chunk.len() <= bytes.len(),
        chunk == bytes.subrange(0, chunk.len() as int),
    ensures
        var_u64_prefix_value(chunk, count) == var_u64_prefix_value(bytes, count),
    decreases count,
{
    if count > 0 {
        lemma_prefix_value_prefix(bytes, chunk, (count - 1) as nat);
        assert(chunk[count - 1] == bytes[count - 1]);
    }
}

/// A value that a reader takes from the front of `bytes`, ending at `end`, is
/// the value of the chunk up to `end`.
pub proof fn lemma_var_u64_chunk(bytes: Seq<u8>, end: nat)
    requires
        var_u64_end_from(bytes, 0, 10) == Some(end),
    ensures
        end < bytes.len(),
        is_var_u64_chunk(bytes.subrange(0, end + 1int)),
        var_u64_chunk_value(bytes.subrange(0, end + 1int)) == var_u64_prefix_value(bytes, end + 1),
{
    lemma_end_from_bounds(bytes, 0, 10);
    lemma_end_from_prefix(bytes, end, 0);
    lemma_prefix_value_prefix(bytes, bytes.subrange(0, end + 1int), end + 1);
}

proof fn lemma_end_from_bounds(bytes: Seq<u8>, index: nat, limit: nat)
    ensures
        var_u64_end_from(bytes, index, limit) matches Some(end) ==> index <= end < bytes.len() && end < limit,
    decreases limit - index,
{
    if index < limit && index < bytes.len() && bytes[index as int] >= 128 {
        lemma_end_from_bounds(bytes, index + 1, limit);
    }
}

proof fn lemma_end_from_cons(head: u8, tail: Seq<u8>, index: nat, limit: nat)
    requires
        head >= 128,
    ensures
        var_u64_end_from(seq![head] + tail, index + 1, limit + 1) == match var_u64_end_from(
            tail,
            index,
            limit,
        ) {
            Some(end) => Some(end + 1),
            None => None::<nat>,
        },
    decreases limit - index,
{
    let bytes = seq![head] + tail;
    if index < limit && index < tail.len() {
        assert(bytes[index + 1int] == tail[index as int]);
        if tail[index as int] >= 128 {
            lemma_end_from_cons(head, tail, index + 1, limit);
        }
    }
}

proof fn lemma_shift_or_distributes(low: u64, high: u64, part: u64, shift: u64)
    requires
        shift <= 56,
    ensures
        (low | ((high | (part << shift)) << 7u64)) == ((low | (high << 7u64)) | (part << (shift
            + 7))),
{
    assert((low | ((high | (part << shift)) << 7u64)) == ((low | (high << 7u64)) | (part << (
    shift + 7)))) by (bit_vector)
        requires
            shift <= 56,
    ;
}

proof fn lemma_prefix_value_cons(head: u8, tail: Seq<u8>, count: nat)
    requires
        count <= 9,
        count <= tail.len(),
    ensures
        var_u64_prefix_value(seq![head] + tail, count + 1) == (((head & 0x7f) as u64) | (
        var_u64_prefix_value(tail, count) << 7u64)),
    decreases count,
{
    let bytes = seq![head] + tail;
    let low = (head & 0x7f) as u64;
    assert(bytes[0] == head);
    if count == 0 {
        reveal_with_fuel(var_u64_prefix_value, 2);
        assert(var_u64_prefix_value(bytes, 1) == (0u64 | (low << 0u64)));
        assert(((0u64 | (low << 0u64)) == (low | (0u64 << 7u64)))) by (bit_vector);
    } else {
        lemma_prefix_value_cons(head, tail, (count - 1) as nat);
        let previous = var_u64_prefix_value(tail, (count - 1) as nat);
        let part = (tail[count - 1] & 0x7f) as u64;
        let shift = (7 * (count - 1)) as u64;
        assert(bytes[count as int] == tail[count - 1]);
        assert((7 * count) as u64 == shift + 7);
        assert(var_u64_prefix_value(bytes, count + 1) == (var_u64_prefix_value(bytes, count) | (
        part << (shift + 7))));
        assert(var_u64_prefix_value(tail, count) == (previous | (part << shift)));
        lemma_shift_or_distributes(low, previous, part, shift);
    }
}

/// The encoding of `value`, followed by any bytes, ends at its last byte and
/// reads back as `value`.
pub proof fn lemma_var_u64_round_trip(value: u64, tail: Seq<u8>)
    ensures
        var_u64_end_from(var_u64_bytes(value) + tail, 0, 10) == Some(
            (var_u64_bytes(value).len() - 1) as nat,
        ),
        var_u64_prefix_value(var_u64_bytes(value) + tail, var_u64_bytes(value).len()) == value,
    decreases value,
{
    lemma_var_u64_len(value);
    let bytes = var_u64_bytes(value) + tail;
    if value < 128 {
        let byte = value as u8;
        assert(bytes[0] == byte);
        reveal_with_fuel(var_u64_prefix_value, 2);
        assert(var_u64_prefix_value(bytes, 1) == (0u64 | (((byte & 0x7fu8) as u64) << 0u64)));
        assert(((0u64 | (((byte & 0x7fu8) as u64) << 0u64)) == value)) by (bit_vector)
            requires
                value < 128,
                byte == value as u8,
        ;
    } else {
        let head = (value % 128 + 128) as u8;
        let rest = var_u64_bytes(value / 128) + tail;
        assert(bytes =~= seq![head] + rest);
        lemma_var_u64_round_trip(value / 128, tail);
        lemma_var_u64_len(value / 128);
        let count = var_u64_bytes(value / 128).len();
        lemma_end_from_cons(head, rest, 0, 9);
        assert(var_u64_end_from(bytes, 0, 10) == var_u64_end_from(bytes, 1, 10));
        assert(var_u64_end_from(rest, 0, 9) == var_u64_end_from(rest, 0, 10)) by {
            lemma_end_from_limit(rest, 0, 9);
        }
        assert(head >= 128);
        assert(count <= 9);
        lemma_prefix_value_cons(head, rest, count);
        let high = value / 128;
        assert(((((head & 0x7fu8) as u64) | (high << 7u64)) == value)) by (bit_vector)
            requires
                head == (value % 128 + 128) as u8,
                high == value / 128,
                value >= 128,
        ;
    }
}

proof fn lemma_end_from_limit(bytes: Seq<u8>, index: nat, limit: nat)
    requires
        index <= limit,
        var_u64_end_from(bytes, index, limit + 1) is Some,
        var_u64_end_from(bytes, index, limit + 1)->0 < limit,
    ensures
        var_u64_end_from(bytes, index, limit) == var_u64_end_from(bytes, index, limit + 1),
    decreases limit - index,
{
    reveal_with_fuel(var_u64_end_from, 2);
    if index < limit && index < bytes.len() && bytes[index as int] >= 128 {
        lemma_end_from_limit(bytes, index + 1, limit);
    }
}

/// Zig-zag image of a signed value: non-negative values map to even numbers and
/// negative values to odd numbers, so small magnitudes stay small.
pub open spec fn zig_zag(value: i64) -> u64 {
    if value >= 0 {
        (2 * value) as u64
    } else {
        (-2 * value - 1) as u64
    }
}

/// Signed value whose zig-zag image is `value`.
pub open spec fn un_zig_zag(value: u64) -> i64 {
    if value % 2 == 0 {
        (value / 2) as i64
    } else {
        (-((value / 2) as int) - 1) as i64
    }
}

/// Maps a signed value to its zig-zag image.
pub fn zig_zag_encode_i64(value: i64) -> (encoded: u64)
    ensures
        encoded == zig_zag(value),
{
    let shifted: u64 = (value as u64) << 1u64;
    let sign: u64 = (value >> 63u64) as u64;
    assert((((value as u64) << 1u64) ^ ((value >> 63u64) as u64)) == (if value >= 0 {
        (2 * value) as u64
    } else {
        (-2 * value - 1) as u64
    })) by (bit_vector);
    shifted ^ sign
}

/// Maps a zig-zag image back to its signed value.
pub fn zig_zag_decode_i64(value: u64) -> (decoded: i64)
    ensures
        decoded == un_zig_zag(value),
{
    let half: i64 = (value >> 1u64) as i64;
    assert((value & 1u64) <= 1u64) by (bit_vector);
    let sign: i64 = 0i64 - ((value & 1u64) as i64);
    assert((half ^ sign) == (if value % 2 == 0 {
        (value / 2) as i64
    } else {
        (-((value / 2) as int) - 1) as i64
    })) by (bit_vector)
        requires
            half == (value >> 1u64) as i64,
            sign == (0 - ((value & 1u64) as i64)) as i64,
    ;
    half ^ sign
}

/// Zig-zag decoding undoes zig-zag encoding, and the other way round.
pub proof fn lemma_zig_zag_round_trip(value: i64, image: u64)
    ensures
        un_zig_zag(zig_zag(value)) == value,
        zig_zag(un_zig_zag(image)) == image,
{
}

/// Concatenated variable-length encodings of each value.
pub open spec fn var_u64s_bytes(values: Seq<u64>) -> Seq<u8>
    decreases values.len(),
{
    if values.len() == 0 {
        Seq::empty()
    } else {
        var_u64s_bytes(values.drop_last()) + var_u64_bytes(values.last())
    }
}

/// Bytes of a compact `u64` list: a mode byte, then either the count and each
/// value in variable-length form, when that is strictly shorter than eight bytes
/// per value, or the count and each value as eight little-endian bytes.
pub open spec fn compact_u64_vec_bytes(values: Seq<u64>) -> Seq<u8> {
    if var_u64s_bytes(values).len() < 8 * values.len() {
        seq![COMPACT_U64_VEC_VARINT_MODE] + spec_u64_to_le_bytes(values.len() as u64)
            + var_u64s_bytes(values)
    } else {
        seq![COMPACT_U64_VEC_RAW_MODE] + u64_vec_bytes(values)
    }
}

/// Appends the variable-length encoding of each value.
pub fn write_var_u64s(out: &mut Vec<u8>, values: &[u64])
    ensures
        final(out)@ == old(out)@ + var_u64s_bytes(values@),
{
    let mut index: usize = 0;
    while index < values.len()
        invariant
            index <= values@.len(),
            out@ == old(out)@ + var_u64s_bytes(values@.subrange(0, index as int)),
        decreases values@.len() - index,
    {
        write_var_u64(out, values[index]);
        proof {
            let next = values@.subrange(0, index + 1);
            assert(next.drop_last() =~= values@.subrange(0, index as int));
            assert(out@ =~= old(out)@ + var_u64s_bytes(next));
        }
        index = index + 1;
    }
    assert(values@.subrange(0, values@.len() as int) =~= values@);
}

/// Returns the total length of the variable-length encodings of `values`.
pub fn var_u64s_len(values: &[u64]) -> (len: u128)
    ensures
        len == var_u64s_bytes(values@).len(),
{
    let mut total: u128 = 0;
    let mut index: usize = 0;
    while index < values.len()
        invariant
            index <= values@.len(),
            total == var_u64s_bytes(values@.subrange(0, index as int)).len(),
            total <= 10 * index,
        decreases values@.len() - index,
    {
        let len = var_u64_len(values[index]);
        proof {
            let next = values@.subrange(0, index + 1);
            assert(next.drop_last() =~= values@.subrange(0, index as int));
        }
        total = total + len as u128;
        index = index + 1;
    }
    assert(values@.subrange(0, values@.len() as int) =~= values@);
    total
}

/// Appends a compact `u64` list, choosing the shorter of the two layouts.
pub fn write_compact_u64_vec(out: &mut Vec<u8>, values: &[u64])
    ensures
        final(out)@ == old(out)@ + compact_u64_vec_bytes(values@),
{
    let raw_len: u128 = 8 * (values.len() as u128);
    let varint_len = var_u64s_len(values);
    if varint_len < raw_len {
        write_u8(out, COMPACT_U64_VEC_VARINT_MODE);
        write_u64(out, values.len() as u64);
        write_var_u64s(out, values);
    } else {
        write_u8(out, COMPACT_U64_VEC_RAW_MODE);
        write_u64_vec(out, values);
    }
    assert(out@ =~= old(out)@ + compact_u64_vec_bytes(values@));
}


/// The encodings of a list split after its first value.
pub proof fn lemma_var_u64s_first(values: Seq<u64>, index: int)
    requires
        0 <= index < values.len(),
    ensures
        var_u64s_bytes(values.subrange(index, values.len() as int)) == var_u64_bytes(values[index])
            + var_u64s_bytes(values.subrange(index + 1, values.len() as int)),
{
    let tail = values.subrange(index + 1, values.len() as int);
    assert(values.subrange(index, values.len() as int) =~= seq![values[index]] + tail);
    lemma_var_u64s_concat(seq![values[index]], tail);
    reveal_with_fuel(var_u64s_bytes, 2);
    assert(seq![values[index]].drop_last() =~= Seq::<u64>::empty());
    assert(var_u64s_bytes(seq![values[index]]) =~= var_u64_bytes(values[index]));
}

/// Encoding a concatenation concatenates the encodings.
pub proof fn lemma_var_u64s_concat(left: Seq<u64>, right: Seq<u64>)
    ensures
        var_u64s_bytes(left + right) == var_u64s_bytes(left) + var_u64s_bytes(right),
    decreases right.len(),
{
    if right.len() == 0 {
        assert(left + right =~= left);
    } else {
        lemma_var_u64s_concat(left, right.drop_last());
        assert((left + right).drop_last() =~= left + right.drop_last());
    }
}


/// Each value takes at least one byte.
pub proof fn lemma_var_u64s_len(values: Seq<u64>)
    ensures
        var_u64s_bytes(values).len() >= values.len(),
    decreases values.len(),
{
    if values.len() > 0 {
        lemma_var_u64s_len(values.drop_last());
        lemma_var_u64_len(values.last());
    }
}

/// Every value fits in an `i64`.
pub open spec fn fits_i64(values: Seq<u64>) -> bool {
    forall|i: int| 0 <= i < values.len() ==> #[trigger] values[i] <= i64::MAX
}

/// Difference between value `i` and the value before it (zero before the first).
pub open spec fn delta_at(values: Seq<u64>, i: int) -> i64 {
    (values[i] - (if i == 0 { 0 } else { values[i - 1] as int })) as i64
}

/// Zig-zag images of the differences between consecutive values.
pub open spec fn zig_zag_deltas(values: Seq<u64>) -> Seq<u64> {
    Seq::new(values.len(), |i: int| zig_zag(delta_at(values, i)))
}

/// Bytes of the differences between consecutive values, each zig-zag mapped and
/// stored in variable-length form.
pub open spec fn delta_var_u64s_bytes(values: Seq<u64>) -> Seq<u8> {
    var_u64s_bytes(zig_zag_deltas(values))
}

/// Whether the difference layout is strictly shorter than both other layouts;
/// it is never chosen for values beyond `i64`.
pub open spec fn delta_layout_chosen(values: Seq<u64>) -> bool {
    &&& fits_i64(values)
    &&& delta_var_u64s_bytes(values).len() < 8 * values.len()
    &&& delta_var_u64s_bytes(values).len() < var_u64s_bytes(values).len()
}

/// Bytes of a compact `u64` list that may also use the difference layout: the
/// mode byte, the count and the differences when that is strictly shorter than
/// the other two layouts, else the two-layout form.
pub open spec fn row_id_vec_bytes(values: Seq<u64>) -> Seq<u8> {
    if delta_layout_chosen(values) {
        seq![COMPACT_U64_VEC_DELTA_VARINT_MODE] + spec_u64_to_le_bytes(values.len() as u64)
            + delta_var_u64s_bytes(values)
    } else {
        compact_u64_vec_bytes(values)
    }
}

/// The zig-zag differences of a prefix are a prefix of the zig-zag differences.
proof fn lemma_zig_zag_deltas_prefix(values: Seq<u64>, count: int)
    requires
        0 <= count <= values.len(),
    ensures
        zig_zag_deltas(values.subrange(0, count)) == zig_zag_deltas(values).subrange(0, count),
{
    assert(zig_zag_deltas(values.subrange(0, count)) =~= zig_zag_deltas(values).subrange(0, count));
}

/// Appends the zig-zag variable-length differences between consecutive values.
pub fn write_delta_var_u64s(out: &mut Vec<u8>, values: &[u64])
    requires
        fits_i64(values@),
    ensures
        final(out)@ == old(out)@ + delta_var_u64s_bytes(values@),
{
    let mut previous: i64 = 0;
    let mut index: usize = 0;
    while index < values.len()
        invariant
            fits_i64(values@),
            index <= values@.len(),
            previous == (if index == 0 { 0 } else { values@[index - 1] as int }),
            out@ == old(out)@ + delta_var_u64s_bytes(values@.subrange(0, index as int)),
        decreases values@.len() - index,
    {
        let current: i64 = values[index] as i64;
        let delta: i64 = current - previous;
        assert(delta == delta_at(values@, index as int));
        write_var_u64(out, zig_zag_encode_i64(delta));
        proof {
            lemma_zig_zag_deltas_prefix(values@, index as int);
            lemma_zig_zag_deltas_prefix(values@, index + 1);
            let next = zig_zag_deltas(values@).subrange(0, index + 1);
            assert(next.drop_last() =~= zig_zag_deltas(values@).subrange(0, index as int));
            assert(out@ =~= old(out)@ + delta_var_u64s_bytes(values@.subrange(0, index + 1)));
        }
        previous = current;
        index = index + 1;
    }
    assert(values@.subrange(0, values@.len() as int) =~= values@);
}

/// Returns the length of the difference layout of `values`, or `None` when a
/// value does not fit in an `i64`.
pub fn delta_var_u64s_len(values: &[u64]) -> (len: Option<u128>)
    ensures
        len is None <==> !fits_i64(values@),
        len matches Some(total) ==> total == delta_var_u64s_bytes(values@).len(),
{
    let mut previous: i64 = 0;
    let mut total: u128 = 0;
    let mut index: usize = 0;
    while index < values.len()
        invariant
            index <= values@.len(),
            forall|i: int| 0 <= i < index ==> #[trigger] values@[i] <= i64::MAX,
            previous == (if index == 0 { 0 } else { values@[index - 1] as int }),
            total == delta_var_u64s_bytes(values@.subrange(0, index as int)).len(),
            total <= 10 * index,
        decreases values@.len() - index,
    {
        if values[index] > i64::MAX as u64 {
            return None;
        }
        let current: i64 = values[index] as i64;
        let delta: i64 = current - previous;
        assert(delta == delta_at(values@, index as int));
        let len = var_u64_len(zig_zag_encode_i64(delta));
        proof {
            lemma_zig_zag_deltas_prefix(values@, index as int);
            lemma_zig_zag_deltas_prefix(values@, index + 1);
            let next = zig_zag_deltas(values@).subrange(0, index + 1);
            assert(next.drop_last() =~= zig_zag_deltas(values@).subrange(0, index as int));
        }
        total = total + len as u128;
        previous = current;
        index = index + 1;
    }
    assert(values@.subrange(0, values@.len() as int) =~= values@);
    Some(total)
}

/// Appends a compact `u64` list, choosing the shortest of the three layouts.
pub fn write_row_id_vec(out: &mut Vec<u8>, values: &[u64])
    ensures
        final(out)@ == old(out)@ + row_id_vec_bytes(values@),
{
    let raw_len: u128 = 8 * (values.len() as u128);
    let varint_len = var_u64s_len(values);
    let chosen = match delta_var_u64s_len(values) {
        Some(delta_len) => delta_len < raw_len && delta_len < varint_len,
        None => false,
    };
    if chosen {
        write_u8(out, COMPACT_U64_VEC_DELTA_VARINT_MODE);
        write_u64(out, values.len() as u64);
        write_delta_var_u64s(out, values);
        assert(out@ =~= old(out)@ + row_id_vec_bytes(values@));
    } else {
        write_compact_u64_vec(out, values);
    }
}

} // verus!
