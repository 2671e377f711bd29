//! Typed access to a raw, byte-addressed target address space.
//!
//! The crate is layered over a single capability, the [`channel::RawChannel`]
//! trait: "read `len` bytes at address `addr`, succeed or fail" and "write
//! bytes at `addr`, succeed or fail". On top of it stand:
//!
//! * typed little-endian accessors ([`accessors`]): fixed-width reads that
//!   degrade to the type's zero value when the channel fails, and writes
//!   that report the channel's verdict verbatim;
//! * a signature parser ([`pattern`]): hex-and-wildcard pattern text
//!   compiled into a byte/mask pair, malformed tokens silently dropped;
//! * a signature scanner ([`scanner`]): a chunked, mask-aware search over an
//!   address range that returns the first matching absolute address and
//!   absorbs per-chunk read failures.
//!
//! [`sim::SimChannel`] is a verified in-memory channel, so every layer can be
//! exercised against a simulated address space.

pub mod accessors;
pub mod channel;
pub mod codec;
pub mod pattern;
pub mod scanner;
pub mod sim;

pub use accessors::{
    read_bool, read_f32_bits, read_i32, read_u64, read_vector2, read_vector3, write_bool,
    write_f32_bits, write_i32, write_u64, write_vector2, write_vector3,
};
pub use channel::RawChannel;
pub use pattern::parse;
pub use scanner::{sigscan, CHUNK_BYTES};
pub use sim::SimChannel;

use vstd::prelude::*;

verus! {

/// A read-only snapshot of one virtual-address interval of the target,
/// `[va_start, va_end)`. Produced by an external enumeration backend and
/// passed through unmodified; this layer never creates or interprets one.
#[derive(Clone, Copy, Debug, PartialEq, Eq, Structural)]
pub struct HeapRegion {
    pub va_start: usize,
    pub va_end: usize,
}

/// A 2D vector of 32-bit components, carried as raw little-endian bit
/// patterns. The channel layer moves bits, not numeric interpretations;
/// a caller that wants floating-point components reinterprets each field.
#[derive(Clone, Copy, Debug, PartialEq, Eq, Structural)]
pub struct Vec2Bits {
    pub x: u32,
    pub y: u32,
}

/// A 3D vector of 32-bit components, carried as raw little-endian bit
/// patterns, packed contiguously as x, y, z with no padding.
#[derive(Clone, Copy, Debug, PartialEq, Eq, Structural)]
pub struct Vec3Bits {
    pub x: u32,
    pub y: u32,
    pub z: u32,
}

} // verus!
