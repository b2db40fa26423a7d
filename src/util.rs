//! Splitting instruction words into 4-bit nibbles and joining them back.
use vstd::prelude::*;

verus! {

/// A value that fits in four bits.
pub open spec fn is_nibble(v: u8) -> bool {
    v < 16
}

/// Splits a 16-bit word into its four nibbles, most significant first.
pub fn u16_to_nibbles(n: u16) -> (r: [u8; 4])
    ensures
        r@.len() == 4,
        r@[0] == n / 4096,
        r@[1] == (n / 256) % 16,
        r@[2] == (n / 16) % 16,
        r@[3] == n % 16,
{
    let a: u16 = (n & 0xF000) >> 12;
    let b: u16 = (n & 0x0F00) >> 8;
    let c: u16 = (n & 0x00F0) >> 4;
    let d: u16 = n & 0x000F;
    assert(((n & 0xF000) >> 12) == n / 4096 && ((n & 0x0F00) >> 8) == (n / 256) % 16
        && ((n & 0x00F0) >> 4) == (n / 16) % 16 && (n & 0x000F) == n % 16) by (bit_vector);
    [a as u8, b as u8, c as u8, d as u8]
}

/// Splits two bytes, the first one the more significant, into four nibbles.
pub fn u8_2_to_nibbles(n: [u8; 2]) -> (r: [u8; 4])
    ensures
        r@.len() == 4,
        r@[0] == n@[0] / 16,
        r@[1] == n@[0] % 16,
        r@[2] == n@[1] / 16,
        r@[3] == n@[1] % 16,
{
    let hi: u8 = n[0];
    let lo: u8 = n[1];
    let a: u8 = (hi & 0xF0) >> 4;
    let b: u8 = hi & 0x0F;
    let c: u8 = (lo & 0xF0) >> 4;
    let d: u8 = lo & 0x0F;
    assert(((hi & 0xF0) >> 4) == hi / 16 && (hi & 0x0F) == hi % 16) by (bit_vector);
    assert(((lo & 0xF0) >> 4) == lo / 16 && (lo & 0x0F) == lo % 16) by (bit_vector);
    [a, b, c, d]
}

/// Joins two nibbles into a byte, `n` the more significant.
pub fn nibbles_to_u8(n: u8, nn: u8) -> (r: u8)
    requires
        is_nibble(n),
        is_nibble(nn),
    ensures
        r == n * 16 + nn,
{
    let r: u8 = (n << 4) | nn;
    assert(n < 16 && nn < 16 ==> ((n << 4) | nn) == n * 16 + nn) by (bit_vector);
    r
}

/// Joins three nibbles into a 12-bit value, `n` the most significant.
pub fn nibbles_to_u16(n: u8, nn: u8, nnn: u8) -> (r: u16)
    requires
        is_nibble(n),
        is_nibble(nn),
        is_nibble(nnn),
    ensures
        r == n * 256 + nn * 16 + nnn,
{
    let low: u8 = (nn << 4) | nnn;
    assert(nn < 16 && nnn < 16 ==> ((nn << 4) | nnn) == nn * 16 + nnn) by (bit_vector);
    let high: u16 = (n as u16) << 8;
    let n16: u16 = n as u16;
    assert(n16 < 16 ==> ((n16 << 8) | (low as u16)) == n16 * 256 + low) by (bit_vector);
    high | (low as u16)
}

} // verus!
