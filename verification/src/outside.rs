//! What this crate takes from outside: reading a word with `scroll` and
//! checking UTF-8 with the standard library. The contracts in this file
//! are stated, not proved.

use vstd::prelude::*;
use vstd::utf8::decode_utf8;
use vstd::utf8::valid_utf8;
use scroll::Pread;

verus! {

#[verifier::external_type_specification]
#[verifier::external_body]
pub struct ExScrollError(scroll::Error);

/// The 32-bit number whose little-endian encoding starts at byte `at`.
pub open spec fn le_u32(bytes: Seq<u8>, at: int) -> u32
    recommends
        0 <= at,
        at + 4 <= bytes.len(),
{
    (bytes[at] + bytes[at + 1] * 0x100 + bytes[at + 2] * 0x1_0000 + bytes[at + 3] * 0x100_0000) as u32
}

/// `scroll::Pread::pread_with` for a `u32` in little-endian order: the
/// read succeeds exactly if four bytes are left at `offset`, and then
/// yields the number that they encode, least significant byte first.
#[verifier::external_body]
pub(crate) fn pread_u32(data: &[u8], offset: usize) -> (r: Result<u32, scroll::Error>)
    ensures
        r is Ok <==> offset + 4 <= data@.len(),
        r matches Ok(v) ==> v == le_u32(data@, offset as int),
{
    data.pread_with::<u32>(offset, scroll::LE)
}

/// `std::str::from_utf8`: the bytes as a string, if they are valid UTF-8;
/// the string then holds the characters that the bytes encode.
#[verifier::external_body]
pub(crate) fn str_from_utf8(bytes: &[u8]) -> (r: Option<&str>)
    ensures
        r is Some <==> valid_utf8(bytes@),
        r matches Some(s) ==> s@ == decode_utf8(bytes@),
{
    match std::str::from_utf8(bytes) {
        Ok(s) => Some(s),
        Err(_) => None,
    }
}

} // verus!
