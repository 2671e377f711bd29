//! Typed accessor behaviour against a simulated address space: fixed
//! little-endian layouts, silent zero defaults on read failure, verbatim
//! write verdicts, and exact round trips.

use memscan::sim::SimChannel;
use memscan::{
    read_bool, read_f32_bits, read_i32, read_u64, read_vector2, read_vector3, write_bool,
    write_f32_bits, write_i32, write_u64, write_vector2, write_vector3, Vec2Bits, Vec3Bits,
};

fn space(base: u64, data: Vec<u8>) -> SimChannel {
    SimChannel { base, data, fault_lo: 0, fault_hi: 0 }
}

#[test]
fn read_u64_little_endian_one() {
    let chan = space(0x1000, vec![0x01, 0, 0, 0, 0, 0, 0, 0]);
    assert_eq!(read_u64(&chan, 0x1000), 1);
}

#[test]
fn read_u64_byte_order() {
    let chan = space(0x40, vec![0xEF, 0xCD, 0xAB, 0x89, 0x67, 0x45, 0x23, 0x01]);
    assert_eq!(read_u64(&chan, 0x40), 0x0123_4567_89AB_CDEF);
}

#[test]
fn read_i32_minus_one() {
    let chan = space(0x2000, vec![0xFF, 0xFF, 0xFF, 0xFF]);
    assert_eq!(read_i32(&chan, 0x2000), -1);
}

#[test]
fn read_i32_positive() {
    let chan = space(0, vec![0x39, 0x30, 0, 0]);
    assert_eq!(read_i32(&chan, 0), 12345);
}

#[test]
fn read_float_one() {
    let chan = space(0x80, vec![0, 0, 0x80, 0x3F]);
    let bits = read_f32_bits(&chan, 0x80);
    assert_eq!(bits, 0x3F80_0000);
    assert_eq!(f32::from_bits(bits), 1.0f32);
}

#[test]
fn read_bool_zero_and_nonzero() {
    let chan = space(0x10, vec![0, 1, 0x7F]);
    assert_eq!(read_bool(&chan, 0x10), false);
    assert_eq!(read_bool(&chan, 0x11), true);
    assert_eq!(read_bool(&chan, 0x12), true);
}

#[test]
fn read_vector2_components() {
    // x = 1.0f32, y = -2.0f32, packed little-endian with no padding.
    let chan = space(0x300, vec![0, 0, 0x80, 0x3F, 0, 0, 0, 0xC0]);
    let v = read_vector2(&chan, 0x300);
    assert_eq!(f32::from_bits(v.x), 1.0f32);
    assert_eq!(f32::from_bits(v.y), -2.0f32);
}

#[test]
fn read_vector3_components() {
    let mut data = Vec::new();
    data.extend_from_slice(&1.5f32.to_le_bytes());
    data.extend_from_slice(&(-0.25f32).to_le_bytes());
    data.extend_from_slice(&1000.0f32.to_le_bytes());
    let chan = space(0x300, data);
    let v = read_vector3(&chan, 0x300);
    assert_eq!(f32::from_bits(v.x), 1.5f32);
    assert_eq!(f32::from_bits(v.y), -0.25f32);
    assert_eq!(f32::from_bits(v.z), 1000.0f32);
}

#[test]
fn failed_reads_return_zero_values() {
    let chan = space(0x1000, vec![0xAB; 64]);
    // Entirely outside the backed interval.
    assert_eq!(read_u64(&chan, 0x9000), 0);
    assert_eq!(read_i32(&chan, 0x9000), 0);
    assert_eq!(read_bool(&chan, 0x9000), false);
    assert_eq!(read_f32_bits(&chan, 0x9000), 0);
    assert_eq!(read_vector2(&chan, 0x9000), Vec2Bits { x: 0, y: 0 });
    assert_eq!(read_vector3(&chan, 0x9000), Vec3Bits { x: 0, y: 0, z: 0 });
}

#[test]
fn partially_out_of_range_read_defaults_whole_value() {
    // The last 8 bytes would run past the backing: never a partial decode.
    let chan = space(0x1000, vec![0xFF; 4]);
    assert_eq!(read_u64(&chan, 0x1000), 0);
    assert_eq!(read_i32(&chan, 0x1002), 0);
}

#[test]
fn faulted_reads_return_zero_values() {
    let mut chan = space(0x1000, vec![0xFF; 64]);
    chan.fault_lo = 0x1010;
    chan.fault_hi = 0x1020;
    assert_eq!(read_i32(&chan, 0x1000), -1);
    assert_eq!(read_i32(&chan, 0x1010), 0);
    assert_eq!(read_u64(&chan, 0x100C), 0);
    assert_eq!(read_bool(&chan, 0x101F), false);
    assert_eq!(read_i32(&chan, 0x1020), -1);
}

#[test]
fn round_trip_u64() {
    let mut chan = space(0x1000, vec![0; 32]);
    assert!(write_u64(&mut chan, 0x1008, 0xDEAD_BEEF_0BAD_F00D));
    assert_eq!(read_u64(&chan, 0x1008), 0xDEAD_BEEF_0BAD_F00D);
    assert!(write_u64(&mut chan, 0x1008, u64::MAX));
    assert_eq!(read_u64(&chan, 0x1008), u64::MAX);
}

#[test]
fn round_trip_i32() {
    let mut chan = space(0, vec![0; 16]);
    for v in [0, 1, -1, i32::MIN, i32::MAX, -123_456] {
        assert!(write_i32(&mut chan, 4, v));
        assert_eq!(read_i32(&chan, 4), v);
    }
}

#[test]
fn round_trip_bool() {
    let mut chan = space(0x20, vec![0xCC; 4]);
    assert!(write_bool(&mut chan, 0x21, true));
    assert_eq!(read_bool(&chan, 0x21), true);
    assert!(write_bool(&mut chan, 0x21, false));
    assert_eq!(read_bool(&chan, 0x21), false);
}

#[test]
fn round_trip_f32_bits() {
    let mut chan = space(0x40, vec![0; 8]);
    assert!(write_f32_bits(&mut chan, 0x40, 3.75f32.to_bits()));
    assert_eq!(f32::from_bits(read_f32_bits(&chan, 0x40)), 3.75f32);
}

#[test]
fn round_trip_vector2() {
    let mut chan = space(0x100, vec![0; 16]);
    let v = Vec2Bits { x: 10.5f32.to_bits(), y: (-0.5f32).to_bits() };
    assert!(write_vector2(&mut chan, 0x104, v));
    assert_eq!(read_vector2(&chan, 0x104), v);
}

#[test]
fn round_trip_vector3() {
    let mut chan = space(0x100, vec![0; 16]);
    let v = Vec3Bits { x: 1.0f32.to_bits(), y: 2.0f32.to_bits(), z: 3.0f32.to_bits() };
    assert!(write_vector3(&mut chan, 0x100, v));
    assert_eq!(read_vector3(&chan, 0x100), v);
}

#[test]
fn failed_write_reports_and_changes_nothing() {
    let mut chan = space(0x1000, vec![7; 8]);
    assert!(!write_u64(&mut chan, 0x0FFF, 42));
    assert!(!write_u64(&mut chan, 0x1004, 42));
    assert!(!write_i32(&mut chan, 0x2000, 42));
    assert_eq!(read_u64(&chan, 0x1000), 0x0707_0707_0707_0707);
}

#[test]
fn write_encodes_little_endian() {
    let mut chan = space(0, vec![0; 8]);
    assert!(write_u64(&mut chan, 0, 1));
    assert_eq!(read_bool(&chan, 0), true);
    assert_eq!(read_bool(&chan, 1), false);
    assert_eq!(read_i32(&chan, 0), 1);
}

#[test]
fn repeated_reads_identical() {
    let chan = space(0x500, vec![0x11, 0x22, 0x33, 0x44, 0x55, 0x66, 0x77, 0x88]);
    let first = read_u64(&chan, 0x500);
    assert_eq!(read_u64(&chan, 0x500), first);
    assert_eq!(read_u64(&chan, 0x500), first);
    let fi = read_i32(&chan, 0x502);
    assert_eq!(read_i32(&chan, 0x502), fi);
}
