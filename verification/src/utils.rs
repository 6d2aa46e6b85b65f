//! Big-endian composition of the hexadecimal digits and bytes of an instruction.

use vstd::prelude::*;

verus! {

/// The byte whose high hexadecimal digit is `n1` and whose low digit is `n2`.
pub open spec fn spec_big_endian_4_2(n1: u8, n2: u8) -> int {
    0x10 * n1 + n2
}

/// The 12-bit number with the hexadecimal digits `n1`, `n2`, `n3`, most significant first.
pub open spec fn spec_big_endian_4_3(n1: u8, n2: u8, n3: u8) -> int {
    0x100 * n1 + 0x10 * n2 + n3
}

/// The 16-bit number whose high byte is `n1` and whose low byte is `n2`.
pub open spec fn spec_big_endian_8_2(n1: u8, n2: u8) -> int {
    0x100 * n1 + n2
}

/// Converts two 4-bit unsigned integers into a big-endian encoded 8-bit unsigned integer.
///
/// The digits are passed as `u8`; the composed value has to fit into a byte, which it does
/// whenever both digits are at most `0xF`.
pub fn big_endian_4_2(n1: u8, n2: u8) -> (r: u8)
    requires
        spec_big_endian_4_2(n1, n2) <= u8::MAX,
    ensures
        r == spec_big_endian_4_2(n1, n2),
{
    0x10u8 * n1 + n2
}

/// Converts three 4-bit unsigned integers into a big-endian encoded 12-bit unsigned integer.
///
/// The digits are passed as `u8`; the composed value has to fit into 16 bits, which it does
/// whenever all digits are at most `0xF`.
pub fn big_endian_4_3(n1: u8, n2: u8, n3: u8) -> (r: u16)
    requires
        spec_big_endian_4_3(n1, n2, n3) <= u16::MAX,
    ensures
        r == spec_big_endian_4_3(n1, n2, n3),
{
    0x100u16 * n1 as u16 + 0x10u16 * n2 as u16 + n3 as u16
}

/// Converts two 8-bit unsigned integers into a big-endian encoded 16-bit unsigned integer.
pub fn big_endian_8_2(n1: u8, n2: u8) -> (r: u16)
    ensures
        r == spec_big_endian_8_2(n1, n2),
{
    0x100u16 * n1 as u16 + n2 as u16
}

} // verus!
