//! Little-endian byte writing helpers shared by the archive codecs.
use vstd::bytes::*;
use vstd::prelude::*;

verus! {

/// Bytes of a boolean flag: `1` for true, `0` for false.
pub open spec fn bool_byte(value: bool) -> u8 {
    if value {
        1
    } else {
        0
    }
}

/// Appends every byte of `bytes` to `out`.
pub fn write_bytes(out: &mut Vec<u8>, bytes: &[u8])
    ensures
        final(out)@ == old(out)@ + bytes@,
{
    let mut index: usize = 0;
    while index < bytes.len()
        invariant
            index <= bytes@.len(),
            out@ == old(out)@ + bytes@.subrange(0, index as int),
        decreases bytes@.len() - index,
    {
        out.push(bytes[index]);
        index = index + 1;
        assert(out@ =~= old(out)@ + bytes@.subrange(0, index as int));
    }
    assert(bytes@.subrange(0, bytes@.len() as int) =~= bytes@);
}

/// Appends one byte.
pub fn write_u8(out: &mut Vec<u8>, value: u8)
    ensures
        final(out)@ == old(out)@.push(value),
{
    out.push(value);
}

/// Appends a boolean flag byte.
pub fn write_bool(out: &mut Vec<u8>, value: bool)
    ensures
        final(out)@ == old(out)@.push(bool_byte(value)),
{
    out.push(if value { 1u8 } else { 0u8 });
}

/// Appends the little-endian bytes of a `u16`.
pub fn write_u16(out: &mut Vec<u8>, value: u16)
    ensures
        final(out)@ == old(out)@ + spec_u16_to_le_bytes(value),
{
    let encoded = u16_to_le_bytes(value);
    write_bytes(out, encoded.as_slice());
}

/// Appends the little-endian bytes of a `u32`.
pub fn write_u32(out: &mut Vec<u8>, value: u32)
    ensures
        final(out)@ == old(out)@ + spec_u32_to_le_bytes(value),
{
    let encoded = u32_to_le_bytes(value);
    write_bytes(out, encoded.as_slice());
}

/// Appends the little-endian bytes of a `u64`.
pub fn write_u64(out: &mut Vec<u8>, value: u64)
    ensures
        final(out)@ == old(out)@ + spec_u64_to_le_bytes(value),
{
    let encoded = u64_to_le_bytes(value);
    write_bytes(out, encoded.as_slice());
}

/// Concatenated little-endian bytes of each value.
pub open spec fn u64s_le_bytes(values: Seq<u64>) -> Seq<u8>
    decreases values.len(),
{
    if values.len() == 0 {
        Seq::empty()
    } else {
        u64s_le_bytes(values.drop_last()) + spec_u64_to_le_bytes(values.last())
    }
}

/// The `count` values whose little-endian bytes lie back to back at the start of `bytes`.
pub open spec fn u64s_from_le_bytes(bytes: Seq<u8>, count: nat) -> Seq<u64> {
    Seq::new(count, |i: int| spec_u64_from_le_bytes(bytes.subrange(8 * i, 8 * i + 8)))
}

/// Bytes of a length-prefixed `u64` list.
pub open spec fn u64_vec_bytes(values: Seq<u64>) -> Seq<u8> {
    spec_u64_to_le_bytes(values.len() as u64) + u64s_le_bytes(values)
}

/// Each value occupies the eight bytes at its position.
pub proof fn lemma_u64s_le_bytes(values: Seq<u64>)
    ensures
        u64s_le_bytes(values).len() == 8 * values.len(),
        forall|i: int|
            0 <= i < values.len() ==> #[trigger] u64s_le_bytes(values).subrange(8 * i, 8 * i + 8)
                == spec_u64_to_le_bytes(values[i]),
    decreases values.len(),
{
    lemma_auto_spec_u64_to_from_le_bytes();
    if values.len() > 0 {
        let prefix = values.drop_last();
        lemma_u64s_le_bytes(prefix);
        let bytes = u64s_le_bytes(values);
        assert forall|i: int| 0 <= i < values.len() implies #[trigger] bytes.subrange(
            8 * i,
            8 * i + 8,
        ) == spec_u64_to_le_bytes(values[i]) by {
            if i < prefix.len() {
                assert(bytes.subrange(8 * i, 8 * i + 8) =~= u64s_le_bytes(prefix).subrange(
                    8 * i,
                    8 * i + 8,
                ));
            } else {
                assert(bytes.subrange(8 * i, 8 * i + 8) =~= spec_u64_to_le_bytes(values.last()));
            }
        }
    }
}

/// Reading back the bytes of a list of values gives the values.
pub proof fn lemma_u64s_round_trip(values: Seq<u64>)
    ensures
        u64s_from_le_bytes(u64s_le_bytes(values), values.len()) == values,
{
    lemma_u64s_le_bytes(values);
    lemma_auto_spec_u64_to_from_le_bytes();
    let decoded = u64s_from_le_bytes(u64s_le_bytes(values), values.len());
    assert forall|i: int| 0 <= i < values.len() implies decoded[i] == values[i] by {
        assert(u64s_le_bytes(values).subrange(8 * i, 8 * i + 8) == spec_u64_to_le_bytes(values[i]));
    }
    assert(decoded =~= values);
}

/// Appends the little-endian bytes of each value.
pub fn write_u64s(out: &mut Vec<u8>, values: &[u64])
    ensures
        final(out)@ == old(out)@ + u64s_le_bytes(values@),
{
    let mut index: usize = 0;
    while index < values.len()
        invariant
            index <= values@.len(),
            out@ == old(out)@ + u64s_le_bytes(values@.subrange(0, index as int)),
        decreases values@.len() - index,
    {
        let ghost before = out@;
        write_u64(out, values[index]);
        proof {
            let next = values@.subrange(0, index + 1);
            assert(next.drop_last() =~= values@.subrange(0, index as int));
            assert(next.last() == values@[index as int]);
            assert(out@ =~= old(out)@ + u64s_le_bytes(next));
        }
        index = index + 1;
    }
    assert(values@.subrange(0, values@.len() as int) =~= values@);
}

/// Appends a length-prefixed `u64` list.
pub fn write_u64_vec(out: &mut Vec<u8>, values: &[u64])
    ensures
        final(out)@ == old(out)@ + u64_vec_bytes(values@),
{
    write_u64(out, values.len() as u64);
    write_u64s(out, values);
    assert(out@ =~= old(out)@ + u64_vec_bytes(values@));
}

} // verus!
