//! Typed accessors: fixed-width little-endian values layered over a raw
//! channel.
//!
//! Every `read_*` accessor reads exactly the type's width at the given
//! address and decodes little-endian. When the channel refuses the read the
//! accessor returns the type's zero value — no error surfaces, by design, so
//! a caller cannot tell "value is zero" from "read failed". Every `write_*`
//! accessor encodes exactly the type's width and returns the channel's
//! success verdict verbatim.

use vstd::bytes::{
    spec_u32_from_le_bytes, spec_u32_to_le_bytes, spec_u64_from_le_bytes, spec_u64_to_le_bytes,
    u32_from_le_bytes, u32_to_le_bytes, u64_from_le_bytes, u64_to_le_bytes,
    lemma_auto_spec_u32_to_from_le_bytes, lemma_auto_spec_u64_to_from_le_bytes,
};
use vstd::prelude::*;
use vstd::slice::slice_subrange;

use crate::channel::{bytes_at, mem_write, RawChannel};
use crate::codec::{bits_of_i32, i32_from_bits, i32_of_bits, i32_to_bits, lemma_i32_bits_inverse};
use crate::{Vec2Bits, Vec3Bits};

verus! {

/// The value `read_u64` returns in a given channel state: the eight bytes at
/// `address` decoded little-endian, or zero when the read fails.
pub open spec fn read_u64_spec<C: RawChannel>(chan: &C, address: u64) -> u64 {
    if chan.read_ok(address, 8) {
        spec_u64_from_le_bytes(bytes_at(chan.mem(), address as int, 8))
    } else {
        0u64
    }
}

/// The value `read_i32` returns: four bytes decoded little-endian and
/// reinterpreted as two's complement, or zero when the read fails.
pub open spec fn read_i32_spec<C: RawChannel>(chan: &C, address: u64) -> i32 {
    if chan.read_ok(address, 4) {
        i32_of_bits(spec_u32_from_le_bytes(bytes_at(chan.mem(), address as int, 4)))
    } else {
        0i32
    }
}

/// The value `read_bool` returns: true iff the byte at `address` is nonzero,
/// false when the read fails.
pub open spec fn read_bool_spec<C: RawChannel>(chan: &C, address: u64) -> bool {
    if chan.read_ok(address, 1) {
        bytes_at(chan.mem(), address as int, 1)[0] != 0
    } else {
        false
    }
}

/// The value `read_f32_bits` returns: the 32-bit pattern at `address`
/// decoded little-endian, or zero (the pattern of 0.0) when the read fails.
pub open spec fn read_f32_bits_spec<C: RawChannel>(chan: &C, address: u64) -> u32 {
    if chan.read_ok(address, 4) {
        spec_u32_from_le_bytes(bytes_at(chan.mem(), address as int, 4))
    } else {
        0u32
    }
}

/// The value `read_vector2` returns: two consecutive 32-bit components read
/// as one eight-byte transfer, or the zero vector when the read fails.
pub open spec fn read_vector2_spec<C: RawChannel>(chan: &C, address: u64) -> Vec2Bits {
    if chan.read_ok(address, 8) {
        Vec2Bits {
            x: spec_u32_from_le_bytes(bytes_at(chan.mem(), address as int, 4)),
            y: spec_u32_from_le_bytes(bytes_at(chan.mem(), address as int + 4, 4)),
        }
    } else {
        Vec2Bits { x: 0, y: 0 }
    }
}

/// The value `read_vector3` returns: three consecutive 32-bit components
/// read as one twelve-byte transfer, or the zero vector when the read fails.
pub open spec fn read_vector3_spec<C: RawChannel>(chan: &C, address: u64) -> Vec3Bits {
    if chan.read_ok(address, 12) {
        Vec3Bits {
            x: spec_u32_from_le_bytes(bytes_at(chan.mem(), address as int, 4)),
            y: spec_u32_from_le_bytes(bytes_at(chan.mem(), address as int + 4, 4)),
            z: spec_u32_from_le_bytes(bytes_at(chan.mem(), address as int + 8, 4)),
        }
    } else {
        Vec3Bits { x: 0, y: 0, z: 0 }
    }
}

/// Read an unsigned 64-bit little-endian value at `address`; zero when the
/// channel read fails.
pub fn read_u64<C: RawChannel>(chan: &C, address: u64) -> (r: u64)
    ensures
        r == read_u64_spec(chan, address),
{
    let (buf, ok) = chan.read_bytes(address, 8);
    if ok {
        u64_from_le_bytes(buf.as_slice())
    } else {
        0
    }
}

/// Read a signed 32-bit little-endian value at `address`; zero when the
/// channel read fails.
pub fn read_i32<C: RawChannel>(chan: &C, address: u64) -> (r: i32)
    ensures
        r == read_i32_spec(chan, address),
{
    let (buf, ok) = chan.read_bytes(address, 4);
    if ok {
        i32_from_bits(u32_from_le_bytes(buf.as_slice()))
    } else {
        0
    }
}

/// Read a boolean at `address`: true iff the byte there is nonzero; false
/// when the channel read fails.
pub fn read_bool<C: RawChannel>(chan: &C, address: u64) -> (r: bool)
    ensures
        r == read_bool_spec(chan, address),
{
    let (buf, ok) = chan.read_bytes(address, 1);
    if ok {
        buf[0] != 0
    } else {
        false
    }
}

/// Read the bit pattern of a 32-bit float at `address`; zero — the pattern
/// of 0.0 — when the channel read fails.
pub fn read_f32_bits<C: RawChannel>(chan: &C, address: u64) -> (r: u32)
    ensures
        r == read_f32_bits_spec(chan, address),
{
    let (buf, ok) = chan.read_bytes(address, 4);
    if ok {
        u32_from_le_bytes(buf.as_slice())
    } else {
        0
    }
}

/// Read a 2D vector of 32-bit components at `address` in one eight-byte
/// transfer; the zero vector when the channel read fails.
pub fn read_vector2<C: RawChannel>(chan: &C, address: u64) -> (r: Vec2Bits)
    ensures
        r == read_vector2_spec(chan, address),
{
    let (buf, ok) = chan.read_bytes(address, 8);
    if ok {
        proof {
            assert(buf@.subrange(0, 4) =~= bytes_at(chan.mem(), address as int, 4));
            assert(buf@.subrange(4, 8) =~= bytes_at(chan.mem(), address as int + 4, 4));
        }
        Vec2Bits {
            x: u32_from_le_bytes(slice_subrange(buf.as_slice(), 0, 4)),
            y: u32_from_le_bytes(slice_subrange(buf.as_slice(), 4, 8)),
        }
    } else {
        Vec2Bits { x: 0, y: 0 }
    }
}

/// Read a 3D vector of 32-bit components at `address` in one twelve-byte
/// transfer; the zero vector when the channel read fails.
pub fn read_vector3<C: RawChannel>(chan: &C, address: u64) -> (r: Vec3Bits)
    ensures
        r == read_vector3_spec(chan, address),
{
    let (buf, ok) = chan.read_bytes(address, 12);
    if ok {
        proof {
            assert(buf@.subrange(0, 4) =~= bytes_at(chan.mem(), address as int, 4));
            assert(buf@.subrange(4, 8) =~= bytes_at(chan.mem(), address as int + 4, 4));
            assert(buf@.subrange(8, 12) =~= bytes_at(chan.mem(), address as int + 8, 4));
        }
        Vec3Bits {
            x: u32_from_le_bytes(slice_subrange(buf.as_slice(), 0, 4)),
            y: u32_from_le_bytes(slice_subrange(buf.as_slice(), 4, 8)),
            z: u32_from_le_bytes(slice_subrange(buf.as_slice(), 8, 12)),
        }
    } else {
        Vec3Bits { x: 0, y: 0, z: 0 }
    }
}

/// Write `value` at `address` as eight little-endian bytes; the channel's
/// verdict is returned verbatim and a failed write changes nothing.
pub fn write_u64<C: RawChannel>(chan: &mut C, address: u64, value: u64) -> (ok: bool)
    ensures
        ok == old(chan).write_ok(address, 8),
        ok ==> final(chan).mem() == mem_write(
            old(chan).mem(),
            address as int,
            spec_u64_to_le_bytes(value),
        ),
        !ok ==> final(chan).mem() == old(chan).mem(),
        forall|a: u64, l: usize| #[trigger] final(chan).read_ok(a, l) == old(chan).read_ok(a, l),
        forall|a: u64, l: usize| #[trigger] final(chan).write_ok(a, l) == old(chan).write_ok(a, l),
{
    let bytes = u64_to_le_bytes(value);
    chan.write_bytes(address, &bytes)
}

/// Write `value` at `address` as four little-endian bytes of its
/// two's-complement pattern.
pub fn write_i32<C: RawChannel>(chan: &mut C, address: u64, value: i32) -> (ok: bool)
    ensures
        ok == old(chan).write_ok(address, 4),
        ok ==> final(chan).mem() == mem_write(
            old(chan).mem(),
            address as int,
            spec_u32_to_le_bytes(bits_of_i32(value)),
        ),
        !ok ==> final(chan).mem() == old(chan).mem(),
        forall|a: u64, l: usize| #[trigger] final(chan).read_ok(a, l) == old(chan).read_ok(a, l),
        forall|a: u64, l: usize| #[trigger] final(chan).write_ok(a, l) == old(chan).write_ok(a, l),
{
    let bytes = u32_to_le_bytes(i32_to_bits(value));
    chan.write_bytes(address, &bytes)
}

/// The single byte that encodes a boolean: 1 for true, 0 for false.
pub open spec fn bool_byte(value: bool) -> u8 {
    if value {
        1u8
    } else {
        0u8
    }
}

/// Write `value` at `address` as one byte, 1 for true and 0 for false.
pub fn write_bool<C: RawChannel>(chan: &mut C, address: u64, value: bool) -> (ok: bool)
    ensures
        ok == old(chan).write_ok(address, 1),
        ok ==> final(chan).mem() == mem_write(
            old(chan).mem(),
            address as int,
            seq![bool_byte(value)],
        ),
        !ok ==> final(chan).mem() == old(chan).mem(),
        forall|a: u64, l: usize| #[trigger] final(chan).read_ok(a, l) == old(chan).read_ok(a, l),
        forall|a: u64, l: usize| #[trigger] final(chan).write_ok(a, l) == old(chan).write_ok(a, l),
{
    let mut bytes: Vec<u8> = Vec::new();
    bytes.push(if value { 1u8 } else { 0u8 });
    proof {
        assert(bytes@ =~= seq![bool_byte(value)]);
    }
    chan.write_bytes(address, &bytes)
}

/// Write the bit pattern of a 32-bit float at `address` as four
/// little-endian bytes.
pub fn write_f32_bits<C: RawChannel>(chan: &mut C, address: u64, bits: u32) -> (ok: bool)
    ensures
        ok == old(chan).write_ok(address, 4),
        ok ==> final(chan).mem() == mem_write(
            old(chan).mem(),
            address as int,
            spec_u32_to_le_bytes(bits),
        ),
        !ok ==> final(chan).mem() == old(chan).mem(),
        forall|a: u64, l: usize| #[trigger] final(chan).read_ok(a, l) == old(chan).read_ok(a, l),
        forall|a: u64, l: usize| #[trigger] final(chan).write_ok(a, l) == old(chan).write_ok(a, l),
{
    let bytes = u32_to_le_bytes(bits);
    chan.write_bytes(address, &bytes)
}

/// Write a 2D vector at `address`: its two 32-bit components packed
/// contiguously, each little-endian, in one eight-byte transfer.
pub fn write_vector2<C: RawChannel>(chan: &mut C, address: u64, value: Vec2Bits) -> (ok: bool)
    ensures
        ok == old(chan).write_ok(address, 8),
        ok ==> final(chan).mem() == mem_write(
            old(chan).mem(),
            address as int,
            spec_u32_to_le_bytes(value.x) + spec_u32_to_le_bytes(value.y),
        ),
        !ok ==> final(chan).mem() == old(chan).mem(),
        forall|a: u64, l: usize| #[trigger] final(chan).read_ok(a, l) == old(chan).read_ok(a, l),
        forall|a: u64, l: usize| #[trigger] final(chan).write_ok(a, l) == old(chan).write_ok(a, l),
{
    let mut bytes = u32_to_le_bytes(value.x);
    let mut tail = u32_to_le_bytes(value.y);
    bytes.append(&mut tail);
    chan.write_bytes(address, &bytes)
}

/// Write a 3D vector at `address`: its three 32-bit components packed
/// contiguously, each little-endian, in one twelve-byte transfer.
pub fn write_vector3<C: RawChannel>(chan: &mut C, address: u64, value: Vec3Bits) -> (ok: bool)
    ensures
        ok == old(chan).write_ok(address, 12),
        ok ==> final(chan).mem() == mem_write(
            old(chan).mem(),
            address as int,
            spec_u32_to_le_bytes(value.x) + spec_u32_to_le_bytes(value.y)
                + spec_u32_to_le_bytes(value.z),
        ),
        !ok ==> final(chan).mem() == old(chan).mem(),
        forall|a: u64, l: usize| #[trigger] final(chan).read_ok(a, l) == old(chan).read_ok(a, l),
        forall|a: u64, l: usize| #[trigger] final(chan).write_ok(a, l) == old(chan).write_ok(a, l),
{
    let mut bytes = u32_to_le_bytes(value.x);
    let mut mid = u32_to_le_bytes(value.y);
    let mut tail = u32_to_le_bytes(value.z);
    bytes.append(&mut mid);
    bytes.append(&mut tail);
    chan.write_bytes(address, &bytes)
}

/// Round trip, 64-bit: after a successful `write_u64` of `value`, a
/// succeeding `read_u64` at the same address returns `value` exactly.
pub proof fn lemma_read_after_write_u64<C: RawChannel>(pre: &C, post: &C, address: u64, value: u64)
    requires
        post.mem() == mem_write(pre.mem(), address as int, spec_u64_to_le_bytes(value)),
        post.read_ok(address, 8),
    ensures
        read_u64_spec(post, address) == value,
{
    lemma_auto_spec_u64_to_from_le_bytes();
    crate::channel::lemma_mem_write_effect(pre.mem(), address as int, spec_u64_to_le_bytes(value));
}

/// Round trip, signed 32-bit: after a successful `write_i32` of `value`, a
/// succeeding `read_i32` at the same address returns `value` exactly.
pub proof fn lemma_read_after_write_i32<C: RawChannel>(pre: &C, post: &C, address: u64, value: i32)
    requires
        post.mem() == mem_write(pre.mem(), address as int, spec_u32_to_le_bytes(bits_of_i32(value))),
        post.read_ok(address, 4),
    ensures
        read_i32_spec(post, address) == value,
{
    lemma_auto_spec_u32_to_from_le_bytes();
    lemma_i32_bits_inverse(bits_of_i32(value), value);
    crate::channel::lemma_mem_write_effect(
        pre.mem(),
        address as int,
        spec_u32_to_le_bytes(bits_of_i32(value)),
    );
}

/// Round trip, boolean: after a successful `write_bool` of `value`, a
/// succeeding `read_bool` at the same address returns `value` exactly.
pub proof fn lemma_read_after_write_bool<C: RawChannel>(pre: &C, post: &C, address: u64, value: bool)
    requires
        post.mem() == mem_write(pre.mem(), address as int, seq![bool_byte(value)]),
        post.read_ok(address, 1),
    ensures
        read_bool_spec(post, address) == value,
{
    crate::channel::lemma_mem_write_effect(pre.mem(), address as int, seq![bool_byte(value)]);
}

/// Round trip, float bits: after a successful `write_f32_bits` of `bits`, a
/// succeeding `read_f32_bits` at the same address returns `bits` exactly.
pub proof fn lemma_read_after_write_f32_bits<C: RawChannel>(
    pre: &C,
    post: &C,
    address: u64,
    bits: u32,
)
    requires
        post.mem() == mem_write(pre.mem(), address as int, spec_u32_to_le_bytes(bits)),
        post.read_ok(address, 4),
    ensures
        read_f32_bits_spec(post, address) == bits,
{
    lemma_auto_spec_u32_to_from_le_bytes();
    crate::channel::lemma_mem_write_effect(pre.mem(), address as int, spec_u32_to_le_bytes(bits));
}

/// Round trip, 2D vector: after a successful `write_vector2` of `value`, a
/// succeeding `read_vector2` at the same address returns `value` exactly.
pub proof fn lemma_read_after_write_vector2<C: RawChannel>(
    pre: &C,
    post: &C,
    address: u64,
    value: Vec2Bits,
)
    requires
        post.mem() == mem_write(
            pre.mem(),
            address as int,
            spec_u32_to_le_bytes(value.x) + spec_u32_to_le_bytes(value.y),
        ),
        post.read_ok(address, 8),
    ensures
        read_vector2_spec(post, address) == value,
{
    lemma_auto_spec_u32_to_from_le_bytes();
    let data = spec_u32_to_le_bytes(value.x) + spec_u32_to_le_bytes(value.y);
    crate::channel::lemma_mem_write_effect(pre.mem(), address as int, data);
    assert(bytes_at(post.mem(), address as int, 4) =~= spec_u32_to_le_bytes(value.x));
    assert(bytes_at(post.mem(), address as int + 4, 4) =~= spec_u32_to_le_bytes(value.y));
}

/// Round trip, 3D vector: after a successful `write_vector3` of `value`, a
/// succeeding `read_vector3` at the same address returns `value` exactly.
pub proof fn lemma_read_after_write_vector3<C: RawChannel>(
    pre: &C,
    post: &C,
    address: u64,
    value: Vec3Bits,
)
    requires
        post.mem() == mem_write(
            pre.mem(),
            address as int,
            spec_u32_to_le_bytes(value.x) + spec_u32_to_le_bytes(value.y)
                + spec_u32_to_le_bytes(value.z),
        ),
        post.read_ok(address, 12),
    ensures
        read_vector3_spec(post, address) == value,
{
    lemma_auto_spec_u32_to_from_le_bytes();
    let data = spec_u32_to_le_bytes(value.x) + spec_u32_to_le_bytes(value.y)
        + spec_u32_to_le_bytes(value.z);
    crate::channel::lemma_mem_write_effect(pre.mem(), address as int, data);
    assert(bytes_at(post.mem(), address as int, 4) =~= spec_u32_to_le_bytes(value.x));
    assert(bytes_at(post.mem(), address as int + 4, 4) =~= spec_u32_to_le_bytes(value.y));
    assert(bytes_at(post.mem(), address as int + 8, 4) =~= spec_u32_to_le_bytes(value.z));
}

/// Failure defaults: whenever the channel refuses the read, each typed read
/// accessor returns its type's zero value — never a partial decode.
pub proof fn lemma_failed_reads_default<C: RawChannel>(chan: &C, address: u64)
    ensures
        !chan.read_ok(address, 8) ==> read_u64_spec(chan, address) == 0,
        !chan.read_ok(address, 4) ==> read_i32_spec(chan, address) == 0,
        !chan.read_ok(address, 1) ==> read_bool_spec(chan, address) == false,
        !chan.read_ok(address, 4) ==> read_f32_bits_spec(chan, address) == 0,
        !chan.read_ok(address, 8) ==> read_vector2_spec(chan, address) == (Vec2Bits { x: 0, y: 0 }),
        !chan.read_ok(address, 12) ==> read_vector3_spec(chan, address) == (Vec3Bits {
            x: 0,
            y: 0,
            z: 0,
        }),
{
}

/// Read accessors are functions of the channel state alone: two channels
/// that back the same bytes and accept the same reads yield identical
/// values at every address, so repeating a read against an unchanged
/// channel repeats its result.
pub proof fn lemma_reads_state_only<C1: RawChannel, C2: RawChannel>(c1: &C1, c2: &C2, address: u64)
    requires
        c1.mem() == c2.mem(),
        forall|a: u64, l: usize| #[trigger] c1.read_ok(a, l) == c2.read_ok(a, l),
    ensures
        read_u64_spec(c1, address) == read_u64_spec(c2, address),
        read_i32_spec(c1, address) == read_i32_spec(c2, address),
        read_bool_spec(c1, address) == read_bool_spec(c2, address),
        read_f32_bits_spec(c1, address) == read_f32_bits_spec(c2, address),
        read_vector2_spec(c1, address) == read_vector2_spec(c2, address),
        read_vector3_spec(c1, address) == read_vector3_spec(c2, address),
{
}

} // verus!
