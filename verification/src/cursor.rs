//! A read position over archive bytes, with the primitive field readers that the
//! archive codecs share. Each codec turns a [`CursorError`] into its own error
//! type, adding the name of the field being read.
use vstd::bytes::*;
use vstd::prelude::*;
use vstd::slice::slice_to_vec;
use vstd::utf8::{decode_utf8, valid_utf8};

use crate::compact::{var_u64_end_from, var_u64_prefix_value};
use crate::text::string_from_utf8;

verus! {

/// Why a primitive read failed.
#[derive(Clone, Debug, PartialEq, Eq)]
pub enum CursorError {
    /// Fewer bytes remained than the field needs.
    UnexpectedEnd {
        /// Number of bytes required for the field.
        needed: usize,
        /// Number of bytes remaining in the input.
        remaining: usize,
    },
    /// A length field cannot be represented by this runtime, or a variable-length
    /// integer ran over ten bytes (reported with length `u64::MAX`).
    LengthOutOfRange {
        /// Length found in the input.
        length: u64,
    },
    /// A string field was not valid UTF-8.
    InvalidUtf8 {
        /// Raw bytes found for the field.
        bytes: Vec<u8>,
    },
}

/// Bytes from `offset` to the end.
pub open spec fn rest_of(bytes: Seq<u8>, offset: int) -> Seq<u8> {
    bytes.subrange(offset, bytes.len() as int)
}

/// Little-endian `u64` at the start of `bytes`.
pub open spec fn le_u64(bytes: Seq<u8>) -> u64 {
    spec_u64_from_le_bytes(bytes.subrange(0, 8))
}

/// Bytes of a length-prefixed string field: the UTF-8 length as a little-endian
/// `u64`, then the UTF-8 bytes.
pub open spec fn string_field_bytes(text: Seq<char>) -> Seq<u8> {
    spec_u64_to_le_bytes(vstd::utf8::encode_utf8(text).len() as u64) + vstd::utf8::encode_utf8(
        text,
    )
}

/// A read position over a byte slice.
pub struct ByteCursor<'a> {
    /// Bytes being read.
    pub bytes: &'a [u8],
    /// Position of the next unread byte.
    pub offset: usize,
}

impl<'a> ByteCursor<'a> {
    /// The position lies within the bytes.
    pub open spec fn wf(&self) -> bool {
        &&& self.offset <= self.bytes@.len()
        &&& self.bytes@.len() <= usize::MAX
    }

    /// Bytes not yet read.
    pub open spec fn rest(&self) -> Seq<u8> {
        rest_of(self.bytes@, self.offset as int)
    }

    /// Starts reading at the first byte.
    pub fn new(bytes: &'a [u8]) -> (cursor: Self)
        ensures
            cursor.wf(),
            cursor.bytes@ == bytes@,
            cursor.offset == 0,
            cursor.rest() == bytes@,
    {
        let _length = bytes.len();
        let cursor = ByteCursor { bytes, offset: 0 };
        assert(cursor.rest() =~= bytes@);
        cursor
    }

    /// Returns the number of unread bytes.
    pub fn remaining(&self) -> (remaining: usize)
        requires
            self.wf(),
        ensures
            remaining == self.rest().len(),
    {
        self.bytes.len() - self.offset
    }

    /// Reads the next `length` bytes.
    pub fn read_exact(&mut self, length: usize) -> (result: Result<&'a [u8], CursorError>)
        requires
            old(self).wf(),
        ensures
            final(self).wf(),
            final(self).bytes@ == old(self).bytes@,
            length <= old(self).rest().len() ==> {
                &&& result matches Ok(slice)
                &&& slice@ == old(self).rest().subrange(0, length as int)
                &&& final(self).offset == old(self).offset + length
                &&& final(self).rest() == old(self).rest().subrange(
                    length as int,
                    old(self).rest().len() as int,
                )
            },
            length > old(self).rest().len() ==> result == Err::<&'a [u8], CursorError>(
                CursorError::UnexpectedEnd {
                    needed: length,
                    remaining: old(self).rest().len() as usize,
                },
            ),
    {
        let remaining = self.remaining();
        if length > remaining {
            return Err(CursorError::UnexpectedEnd { needed: length, remaining });
        }
        let end = self.offset + length;
        let slice = &self.bytes[self.offset..end];
        self.offset = end;
        assert(slice@ =~= old(self).rest().subrange(0, length as int));
        assert(self.rest() =~= old(self).rest().subrange(
            length as int,
            old(self).rest().len() as int,
        ));
        Ok(slice)
    }

    /// Reads one byte.
    pub fn read_u8(&mut self) -> (result: Result<u8, CursorError>)
        requires
            old(self).wf(),
        ensures
            final(self).wf(),
            final(self).bytes@ == old(self).bytes@,
            old(self).rest().len() >= 1 ==> {
                &&& result == Ok::<u8, CursorError>(old(self).rest()[0])
                &&& final(self).rest() == old(self).rest().subrange(1, old(self).rest().len() as int)
            },
            old(self).rest().len() < 1 ==> result == Err::<u8, CursorError>(
                CursorError::UnexpectedEnd { needed: 1, remaining: 0 },
            ),
    {
        let bytes = match self.read_exact(1) {
            Ok(bytes) => bytes,
            Err(error) => return Err(error),
        };
        Ok(bytes[0])
    }

    /// Reads a little-endian `u16`.
    pub fn read_u16(&mut self) -> (result: Result<u16, CursorError>)
        requires
            old(self).wf(),
        ensures
            final(self).wf(),
            final(self).bytes@ == old(self).bytes@,
            old(self).rest().len() >= 2 ==> {
                &&& result == Ok::<u16, CursorError>(
                    spec_u16_from_le_bytes(old(self).rest().subrange(0, 2)),
                )
                &&& final(self).rest() == old(self).rest().subrange(2, old(self).rest().len() as int)
            },
            old(self).rest().len() < 2 ==> result == Err::<u16, CursorError>(
                CursorError::UnexpectedEnd { needed: 2, remaining: old(self).rest().len() as usize },
            ),
    {
        let bytes = match self.read_exact(2) {
            Ok(bytes) => bytes,
            Err(error) => return Err(error),
        };
        Ok(u16_from_le_bytes(bytes))
    }

    /// Reads a little-endian `u32`.
    pub fn read_u32(&mut self) -> (result: Result<u32, CursorError>)
        requires
            old(self).wf(),
        ensures
            final(self).wf(),
            final(self).bytes@ == old(self).bytes@,
            old(self).rest().len() >= 4 ==> {
                &&& result == Ok::<u32, CursorError>(
                    spec_u32_from_le_bytes(old(self).rest().subrange(0, 4)),
                )
                &&& final(self).rest() == old(self).rest().subrange(4, old(self).rest().len() as int)
            },
            old(self).rest().len() < 4 ==> result == Err::<u32, CursorError>(
                CursorError::UnexpectedEnd { needed: 4, remaining: old(self).rest().len() as usize },
            ),
    {
        let bytes = match self.read_exact(4) {
            Ok(bytes) => bytes,
            Err(error) => return Err(error),
        };
        Ok(u32_from_le_bytes(bytes))
    }

    /// Reads a little-endian `u64`.
    pub fn read_u64(&mut self) -> (result: Result<u64, CursorError>)
        requires
            old(self).wf(),
        ensures
            final(self).wf(),
            final(self).bytes@ == old(self).bytes@,
            old(self).rest().len() >= 8 ==> {
                &&& result == Ok::<u64, CursorError>(le_u64(old(self).rest()))
                &&& final(self).rest() == old(self).rest().subrange(8, old(self).rest().len() as int)
            },
            old(self).rest().len() < 8 ==> result == Err::<u64, CursorError>(
                CursorError::UnexpectedEnd { needed: 8, remaining: old(self).rest().len() as usize },
            ),
    {
        let bytes = match self.read_exact(8) {
            Ok(bytes) => bytes,
            Err(error) => return Err(error),
        };
        Ok(u64_from_le_bytes(bytes))
    }

    /// Reads a little-endian `u64` length that must fit in `usize`.
    pub fn read_len(&mut self) -> (result: Result<usize, CursorError>)
        requires
            old(self).wf(),
        ensures
            final(self).wf(),
            final(self).bytes@ == old(self).bytes@,
            old(self).rest().len() >= 8 ==> {
                &&& final(self).rest() == old(self).rest().subrange(8, old(self).rest().len() as int)
                &&& le_u64(old(self).rest()) <= usize::MAX ==> result == Ok::<usize, CursorError>(
                    le_u64(old(self).rest()) as usize,
                )
                &&& le_u64(old(self).rest()) > usize::MAX ==> result == Err::<usize, CursorError>(
                    CursorError::LengthOutOfRange { length: le_u64(old(self).rest()) },
                )
            },
            old(self).rest().len() < 8 ==> result == Err::<usize, CursorError>(
                CursorError::UnexpectedEnd { needed: 8, remaining: old(self).rest().len() as usize },
            ),
    {
        let length = match self.read_u64() {
            Ok(length) => length,
            Err(error) => return Err(error),
        };
        if length > usize::MAX as u64 {
            return Err(CursorError::LengthOutOfRange { length });
        }
        Ok(length as usize)
    }

    /// Reads a variable-length `u64` of at most ten bytes.
    pub fn read_var_u64(&mut self) -> (result: Result<u64, CursorError>)
        requires
            old(self).wf(),
        ensures
            final(self).wf(),
            final(self).bytes@ == old(self).bytes@,
            match var_u64_end_from(old(self).rest(), 0, 10) {
                Some(end) => {
                    &&& result == Ok::<u64, CursorError>(
                        var_u64_prefix_value(old(self).rest(), end + 1),
                    )
                    &&& final(self).rest() == old(self).rest().subrange(
                        end + 1int,
                        old(self).rest().len() as int,
                    )
                },
                None => if old(self).rest().len() < 10 {
                    result == Err::<u64, CursorError>(
                        CursorError::UnexpectedEnd { needed: 1, remaining: 0 },
                    )
                } else {
                    result == Err::<u64, CursorError>(
                        CursorError::LengthOutOfRange { length: u64::MAX },
                    )
                },
            },
    {
        let ghost start = self.rest();
        let mut value: u64 = 0;
        let mut shift: u64 = 0;
        let mut count: usize = 0;
        while count < 10
            invariant
                self.wf(),
                self.bytes@ == old(self).bytes@,
                start == old(self).rest(),
                count <= 10,
                count <= start.len(),
                shift == 7 * count,
                self.rest() == start.subrange(count as int, start.len() as int),
                value == var_u64_prefix_value(start, count as nat),
                var_u64_end_from(start, 0, 10) == var_u64_end_from(start, count as nat, 10),
            decreases 10 - count,
        {
            let byte = match self.read_u8() {
                Ok(byte) => byte,
                Err(error) => return Err(error),
            };
            assert(byte == start[count as int]);
            value = value | (((byte & 0x7f) as u64) << shift);
            count = count + 1;
            if byte < 128 {
                return Ok(value);
            }
            shift = shift + 7;
        }
        Err(CursorError::LengthOutOfRange { length: u64::MAX })
    }

    /// Reads a length-prefixed byte field.
    pub fn read_byte_vec(&mut self) -> (result: Result<Vec<u8>, CursorError>)
        requires
            old(self).wf(),
        ensures
            final(self).wf(),
            final(self).bytes@ == old(self).bytes@,
            old(self).rest().len() < 8 ==> result == Err::<Vec<u8>, CursorError>(
                CursorError::UnexpectedEnd { needed: 8, remaining: old(self).rest().len() as usize },
            ),
            old(self).rest().len() >= 8 ==> {
                let length = le_u64(old(self).rest());
                let after = old(self).rest().len() - 8;
                &&& length > usize::MAX ==> result == Err::<Vec<u8>, CursorError>(
                    CursorError::LengthOutOfRange { length },
                )
                &&& length <= usize::MAX && length > after ==> result == Err::<Vec<u8>, CursorError>(
                    CursorError::UnexpectedEnd { needed: length as usize, remaining: after as usize },
                )
                &&& length <= after ==> {
                    &&& result matches Ok(field)
                    &&& field@ == old(self).rest().subrange(8, 8 + length)
                    &&& final(self).rest() == old(self).rest().subrange(
                        8 + length,
                        old(self).rest().len() as int,
                    )
                }
            },
    {
        let length = match self.read_len() {
            Ok(length) => length,
            Err(error) => return Err(error),
        };
        let bytes = match self.read_exact(length) {
            Ok(bytes) => bytes,
            Err(error) => return Err(error),
        };
        let field = slice_to_vec(bytes);
        assert(field@ =~= old(self).rest().subrange(8, 8 + length));
        assert(self.rest() =~= old(self).rest().subrange(8 + length, old(self).rest().len() as int));
        Ok(field)
    }

    /// Reads a length-prefixed UTF-8 string field.
    pub fn read_string(&mut self) -> (result: Result<String, CursorError>)
        requires
            old(self).wf(),
        ensures
            final(self).wf(),
            final(self).bytes@ == old(self).bytes@,
            old(self).rest().len() < 8 ==> result == Err::<String, CursorError>(
                CursorError::UnexpectedEnd { needed: 8, remaining: old(self).rest().len() as usize },
            ),
            old(self).rest().len() >= 8 ==> {
                let length = le_u64(old(self).rest());
                let after = old(self).rest().len() - 8;
                let field = old(self).rest().subrange(8, 8 + length);
                &&& length > usize::MAX ==> result == Err::<String, CursorError>(
                    CursorError::LengthOutOfRange { length },
                )
                &&& length <= usize::MAX && length > after ==> result == Err::<String, CursorError>(
                    CursorError::UnexpectedEnd { needed: length as usize, remaining: after as usize },
                )
                &&& length <= after ==> {
                    &&& final(self).rest() == old(self).rest().subrange(
                        8 + length,
                        old(self).rest().len() as int,
                    )
                    &&& valid_utf8(field) ==> (result matches Ok(text) && text@ == decode_utf8(
                        field,
                    ))
                    &&& !valid_utf8(field) ==> (result matches Err(
                        CursorError::InvalidUtf8 { bytes },
                    ) && bytes@ == field)
                }
            },
    {
        let bytes = match self.read_byte_vec() {
            Ok(bytes) => bytes,
            Err(error) => return Err(error),
        };
        let copy = bytes.clone();
        match string_from_utf8(bytes) {
            Some(text) => Ok(text),
            None => Err(CursorError::InvalidUtf8 { bytes: copy }),
        }
    }
}

} // verus!
