//! Signature scanning over a simulated address space: exact matches,
//! wildcards, chunk-seam straddles, skipped unreadable chunks, and the
//! not-found sentinel.

use memscan::sim::SimChannel;
use memscan::{sigscan, CHUNK_BYTES};

fn space(base: u64, data: Vec<u8>) -> SimChannel {
    SimChannel { base, data, fault_lo: 0, fault_hi: 0 }
}

#[test]
fn scan_finds_exact_match() {
    let mut data = vec![0u8; 0x2000];
    data[0x1000] = 0xAA;
    data[0x1001] = 0xBB;
    data[0x1002] = 0xCC;
    let chan = space(0x1000, data);
    assert_eq!(sigscan(&chan, "AA BB CC", 0x1000, 0x3000), 0x2000);
}

#[test]
fn scan_finds_match_at_range_start() {
    let mut data = vec![0u8; 0x100];
    data[0] = 0x12;
    data[1] = 0x34;
    let chan = space(0x4000, data);
    assert_eq!(sigscan(&chan, "12 34", 0x4000, 0x4100), 0x4000);
}

#[test]
fn scan_wildcard_positions_match_anything() {
    let mut data = vec![0u8; 0x200];
    data[0x80] = 0xAA;
    data[0x81] = 0x5E;
    data[0x82] = 0xCC;
    let chan = space(0, data);
    assert_eq!(sigscan(&chan, "AA ? CC", 0, 0x200), 0x80);
    assert_eq!(sigscan(&chan, "AA ?? CC", 0, 0x200), 0x80);
    assert_eq!(sigscan(&chan, "AA BB CC", 0, 0x200), 0);
}

#[test]
fn scan_returns_lowest_match() {
    let mut data = vec![0u8; 0x400];
    for at in [0x300, 0x150, 0x3F0] {
        data[at] = 0xFE;
        data[at + 1] = 0xED;
    }
    let chan = space(0x1000, data);
    assert_eq!(sigscan(&chan, "FE ED", 0x1000, 0x1400), 0x1150);
}

#[test]
fn scan_not_found_returns_sentinel() {
    let chan = space(0x1000, vec![0u8; 0x800]);
    assert_eq!(sigscan(&chan, "AA BB CC", 0x1000, 0x1800), 0);
}

#[test]
fn scan_empty_signature_returns_sentinel() {
    // An empty pattern never matches everywhere; it fails immediately.
    let chan = space(0x1000, vec![0u8; 0x100]);
    assert_eq!(sigscan(&chan, "", 0x1000, 0x1100), 0);
    assert_eq!(sigscan(&chan, "   ", 0x1000, 0x1100), 0);
    assert_eq!(sigscan(&chan, "ZZ nope", 0x1000, 0x1100), 0);
}

#[test]
fn scan_pattern_longer_than_range() {
    let chan = space(0, vec![0xAA, 0xBB]);
    assert_eq!(sigscan(&chan, "AA BB CC", 0, 2), 0);
}

#[test]
fn scan_ignores_match_past_end() {
    let mut data = vec![0u8; 0x100];
    data[0xF0] = 0x77;
    data[0xF1] = 0x88;
    data[0xF2] = 0x99;
    let chan = space(0, data);
    // The occurrence begins before `end` but runs past it.
    assert_eq!(sigscan(&chan, "77 88 99", 0, 0xF2), 0);
    assert_eq!(sigscan(&chan, "77 88 99", 0, 0xF3), 0xF0);
}

#[test]
fn scan_finds_match_straddling_chunk_seam() {
    // With a 3-byte pattern the chunk stride is CHUNK_BYTES - 2, so the
    // second chunk begins at CHUNK_BYTES - 2; a match there straddles the
    // first chunk's right edge and must survive the overlap.
    let seam = CHUNK_BYTES - 2;
    let mut data = vec![0u8; CHUNK_BYTES + 0x40];
    data[seam] = 0xAA;
    data[seam + 1] = 0xBB;
    data[seam + 2] = 0xCC;
    let chan = space(0, data);
    assert_eq!(
        sigscan(&chan, "AA BB CC", 0, (CHUNK_BYTES + 0x40) as u64),
        seam as u64
    );
}

#[test]
fn scan_skips_unreadable_chunk() {
    // A fault window makes the whole first chunk unreadable: an occurrence
    // inside it is passed over and the later, readable one is returned.
    let mut data = vec![0u8; CHUNK_BYTES + 0x400];
    for at in [0x100, CHUNK_BYTES + 0x100] {
        data[at] = 0xD0;
        data[at + 1] = 0x0D;
    }
    let mut chan = space(0, data);
    chan.fault_lo = 0x10;
    chan.fault_hi = 0x20;
    assert_eq!(
        sigscan(&chan, "D0 0D", 0, (CHUNK_BYTES + 0x400) as u64),
        (CHUNK_BYTES + 0x100) as u64
    );
}

#[test]
fn scan_entirely_unreadable_range() {
    let chan = space(0x10_0000, vec![0xAB; 0x100]);
    // The scanned range lies wholly outside the backing.
    assert_eq!(sigscan(&chan, "AB AB", 0x20_0000, 0x20_1000), 0);
}

#[test]
fn scan_repeated_calls_identical() {
    let mut data = vec![0u8; 0x300];
    data[0x123] = 0xCA;
    data[0x124] = 0xFE;
    let chan = space(0, data);
    let first = sigscan(&chan, "CA FE", 0, 0x300);
    assert_eq!(first, 0x123);
    assert_eq!(sigscan(&chan, "CA FE", 0, 0x300), first);
    assert_eq!(sigscan(&chan, "CA FE", 0, 0x300), first);
}
