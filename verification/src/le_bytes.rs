//! Little-endian words through the `byteorder` crate.

use byteorder::{ByteOrder, LittleEndian};
use vstd::prelude::*;
use vstd::bytes::{spec_u32_from_le_bytes, spec_u32_to_le_bytes};

verus! {

/// Calls `LittleEndian::read_u32` of `byteorder`, which assembles the four
/// bytes into an unsigned word, least significant byte first.
#[verifier::external_body]
pub(crate) fn read_u32_le(word: &[u8; 4]) -> (n: u32)
    ensures
        n == spec_u32_from_le_bytes(word@),
{
    LittleEndian::read_u32(word)
}

/// Calls `LittleEndian::read_i32` of `byteorder`, which reads the unsigned
/// little-endian word and reinterprets its bits as a signed integer.
#[verifier::external_body]
pub(crate) fn read_i32_le(word: &[u8; 4]) -> (n: i32)
    ensures
        n == spec_u32_from_le_bytes(word@) as i32,
{
    LittleEndian::read_i32(word)
}

/// Calls `LittleEndian::write_u32` of `byteorder`, which stores the word's
/// four bytes, least significant byte first.
#[verifier::external_body]
pub(crate) fn write_u32_le(word: &mut [u8; 4], n: u32)
    ensures
        final(word)@ == spec_u32_to_le_bytes(n),
{
    LittleEndian::write_u32(word, n)
}

/// Calls `LittleEndian::write_i32` of `byteorder`, which stores the bits of
/// the signed integer as an unsigned little-endian word.
#[verifier::external_body]
pub(crate) fn write_i32_le(word: &mut [u8; 4], n: i32)
    ensures
        final(word)@ == spec_u32_to_le_bytes(n as u32),
{
    LittleEndian::write_i32(word, n)
}

} // verus!
