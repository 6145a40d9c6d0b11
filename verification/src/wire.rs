//! Reading little-endian words and nul-terminated strings out of a buffer.

use vstd::prelude::*;
use vstd::slice::slice_subrange;
use vstd::utf8::decode_utf8;
use vstd::utf8::valid_utf8;
use crate::error::BtfError;
use crate::outside::le_u32;
use crate::outside::pread_u32;
use crate::outside::str_from_utf8;

verus! {

/// The signed number with the same 32-bit two's complement pattern.
pub open spec fn as_signed(v: u32) -> i32 {
    if v < 0x8000_0000 {
        v as i32
    } else {
        (v - 0x1_0000_0000) as i32
    }
}

/// The 32-bit word at byte `at`; a format error if the buffer ends before
/// the word does.
pub open spec fn word_at(bytes: Seq<u8>, at: int) -> Result<u32, BtfError> {
    if 0 <= at && at + 4 <= bytes.len() {
        Ok(le_u32(bytes, at))
    } else {
        Err(BtfError::FormatError)
    }
}

/// The index of the first nul byte at or after `from`, or the length of
/// `bytes` if there is none.
pub open spec fn nul_from(bytes: Seq<u8>, from: int) -> int
    decreases bytes.len() - from,
{
    if from < 0 || from >= bytes.len() {
        bytes.len() as int
    } else if bytes[from] == 0 {
        from
    } else {
        nul_from(bytes, from + 1)
    }
}

/// The string that starts at byte `offset` of a string table and ends
/// before the next nul byte. Offset 0 always names the empty string. An
/// offset outside the table, a string that no nul byte ends and bytes that
/// are not UTF-8 are format errors.
pub open spec fn str_at(table: Seq<u8>, offset: int) -> Result<Seq<char>, BtfError> {
    if offset == 0 {
        Ok(Seq::empty())
    } else if offset < 0 || offset >= table.len() {
        Err(BtfError::FormatError)
    } else {
        let end = nul_from(table, offset);
        let bytes = table.subrange(offset, end);
        if end < table.len() && valid_utf8(bytes) {
            Ok(decode_utf8(bytes))
        } else {
            Err(BtfError::FormatError)
        }
    }
}

/// Reads the little-endian 32-bit word at `offset`.
pub fn read_u32(data: &[u8], offset: usize) -> (r: Result<u32, BtfError>)
    ensures
        r == word_at(data@, offset as int),
{
    match pread_u32(data, offset) {
        Ok(v) => Ok(v),
        Err(_) => Err(BtfError::FormatError),
    }
}

/// Reinterprets a 32-bit word as a signed number.
pub fn to_signed(v: u32) -> (r: i32)
    ensures
        r == as_signed(v),
{
    if v < 0x8000_0000 {
        v as i32
    } else {
        (v as i64 - 0x1_0000_0000) as i32
    }
}

/// Reads the string at `offset` of a string table.
pub fn read_str(table: &[u8], offset: usize) -> (r: Result<String, BtfError>)
    ensures
        match r {
            Ok(s) => str_at(table@, offset as int) == Ok::<Seq<char>, BtfError>(s@),
            Err(e) => str_at(table@, offset as int) == Err::<Seq<char>, BtfError>(e),
        },
{
    if offset == 0 {
        return Ok(String::new());
    }
    if offset >= table.len() {
        return Err(BtfError::FormatError);
    }
    let mut end: usize = offset;
    while end < table.len() && table[end] != 0
        invariant
            offset <= end <= table@.len(),
            nul_from(table@, offset as int) == nul_from(table@, end as int),
        decreases table@.len() - end,
    {
        end = end + 1;
    }
    if end >= table.len() {
        return Err(BtfError::FormatError);
    }
    match str_from_utf8(slice_subrange(table, offset, end)) {
        Some(s) => Ok(s.to_owned()),
        None => Err(BtfError::FormatError),
    }
}

} // verus!
