//! Reinterpretation between signed 32-bit values and their unsigned
//! little-endian bit patterns, the two's-complement mapping the typed
//! accessors marshal through.

use vstd::prelude::*;

verus! {

/// The `i32` whose two's-complement bit pattern is `u`.
pub open spec fn i32_of_bits(u: u32) -> i32 {
    if u <= 0x7fff_ffff {
        u as i32
    } else {
        (u - 0x1_0000_0000) as i32
    }
}

/// The two's-complement bit pattern of `v`.
pub open spec fn bits_of_i32(v: i32) -> u32 {
    if v >= 0 {
        v as u32
    } else {
        (v + 0x1_0000_0000) as u32
    }
}

/// Reinterpreting a bit pattern as `i32` and back gives the pattern again,
/// and vice versa: the two mappings are mutual inverses.
pub proof fn lemma_i32_bits_inverse(u: u32, v: i32)
    ensures
        bits_of_i32(i32_of_bits(u)) == u,
        i32_of_bits(bits_of_i32(v)) == v,
{
}

/// Exec reinterpretation of a bit pattern as a signed value.
pub fn i32_from_bits(u: u32) -> (r: i32)
    ensures
        r == i32_of_bits(u),
{
    if u <= 0x7fff_ffff {
        u as i32
    } else {
        let d = u - 0x8000_0000;
        i32::MIN + (d as i32)
    }
}

/// Exec reinterpretation of a signed value as its bit pattern.
pub fn i32_to_bits(v: i32) -> (r: u32)
    ensures
        r == bits_of_i32(v),
{
    if v >= 0 {
        v as u32
    } else {
        let d = v - i32::MIN;
        0x8000_0000 + (d as u32)
    }
}

} // verus!
