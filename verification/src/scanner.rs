//! The signature scanner: find the lowest address in `[start, end)` whose
//! bytes match a compiled pattern under its wildcard mask.
//!
//! The range is streamed through the channel in fixed-size chunks.
//! Successive chunk reads overlap by one byte less than the pattern length,
//! so a match straddling a chunk seam still lies whole inside the next
//! chunk. A chunk the channel refuses to read is skipped, not fatal; the
//! final chunk is clamped to the range and scanning stops once the remnant
//! is shorter than the pattern. The sentinel 0 stands for "not found" — it
//! is indistinguishable from a genuine match at address 0, a deliberate
//! compatibility quirk. An empty pattern never matches; it returns the
//! sentinel immediately.

use vstd::prelude::*;
use vstd::string::StringSliceAdditionalSpecFns;

use crate::channel::{bytes_at, mem_has, RawChannel};
use crate::pattern::{parse, parse_sig};

verus! {

/// Bytes transferred per chunk read.
pub const CHUNK_BYTES: usize = 0x100000;

/// The pattern matches the address space at absolute position `p`: every
/// concrete (non-wildcard) pattern byte is present and equal there.
/// Wildcard positions constrain nothing.
pub open spec fn matches_at(m: Map<int, u8>, bytes: Seq<u8>, mask: Seq<bool>, p: int) -> bool {
    forall|j: int| 0 <= j < bytes.len() && #[trigger] mask[j]
        ==> m.contains_key(p + j) && m[p + j] == bytes[j]
}

/// The pattern matches a read buffer at offset `off`.
pub open spec fn seq_matches(buf: Seq<u8>, bytes: Seq<u8>, mask: Seq<bool>, off: int) -> bool {
    forall|j: int| 0 <= j < bytes.len() && #[trigger] mask[j] ==> buf[off + j] == bytes[j]
}

/// The first absolute position in `[lo, hi)` where the pattern matches the
/// address space, if any.
pub open spec fn first_hit(
    m: Map<int, u8>,
    bytes: Seq<u8>,
    mask: Seq<bool>,
    lo: int,
    hi: int,
) -> Option<int>
    decreases hi - lo,
{
    if lo >= hi {
        None
    } else if matches_at(m, bytes, mask, lo) {
        Some(lo)
    } else {
        first_hit(m, bytes, mask, lo + 1, hi)
    }
}

/// When nothing in `[lo, hi)` matches, there is no first hit.
pub proof fn lemma_first_hit_none(m: Map<int, u8>, bytes: Seq<u8>, mask: Seq<bool>, lo: int, hi: int)
    requires
        forall|p: int| lo <= p < hi ==> !#[trigger] matches_at(m, bytes, mask, p),
    ensures
        first_hit(m, bytes, mask, lo, hi) is None,
    decreases hi - lo,
{
    if lo < hi {
        lemma_first_hit_none(m, bytes, mask, lo + 1, hi);
    }
}

/// When `p0` matches and nothing before it does, `p0` is the first hit.
pub proof fn lemma_first_hit_some(
    m: Map<int, u8>,
    bytes: Seq<u8>,
    mask: Seq<bool>,
    lo: int,
    hi: int,
    p0: int,
)
    requires
        lo <= p0 < hi,
        matches_at(m, bytes, mask, p0),
        forall|p: int| lo <= p < p0 ==> !#[trigger] matches_at(m, bytes, mask, p),
    ensures
        first_hit(m, bytes, mask, lo, hi) == Some(p0),
    decreases p0 - lo,
{
    if lo < p0 {
        lemma_first_hit_some(m, bytes, mask, lo + 1, hi, p0);
    }
}

/// A first hit lies in its interval and matches.
pub proof fn lemma_first_hit_is_match(
    m: Map<int, u8>,
    bytes: Seq<u8>,
    mask: Seq<bool>,
    lo: int,
    hi: int,
)
    ensures
        (first_hit(m, bytes, mask, lo, hi) matches Some(p)
            ==> lo <= p < hi && matches_at(m, bytes, mask, p)),
    decreases hi - lo,
{
    if lo < hi && !matches_at(m, bytes, mask, lo) {
        lemma_first_hit_is_match(m, bytes, mask, lo + 1, hi);
    }
}

/// Inside a successfully read window, matching the buffer at an offset is
/// the same as matching the address space at the corresponding absolute
/// position.
pub proof fn lemma_window_matches(
    m: Map<int, u8>,
    buf: Seq<u8>,
    bytes: Seq<u8>,
    mask: Seq<bool>,
    base: int,
    q: nat,
)
    requires
        buf == bytes_at(m, base, q),
        mem_has(m, base, q),
        bytes.len() == mask.len(),
    ensures
        forall|p: int| base <= p && p + bytes.len() <= base + q
            ==> (seq_matches(buf, bytes, mask, p - base) <==> #[trigger] matches_at(
                m,
                bytes,
                mask,
                p,
            )),
{
    assert forall|p: int| base <= p && p + bytes.len() <= base + q
        implies (seq_matches(buf, bytes, mask, p - base) <==> matches_at(m, bytes, mask, p)) by {
        if seq_matches(buf, bytes, mask, p - base) {
            assert forall|j: int| 0 <= j < bytes.len() && #[trigger] mask[j]
                implies m.contains_key(p + j) && m[p + j] == bytes[j] by {
                assert(m.contains_key(p + j));
                assert(buf[p - base + j] == m[p + j]);
            }
        }
        if matches_at(m, bytes, mask, p) {
            assert forall|j: int| 0 <= j < bytes.len() && #[trigger] mask[j]
                implies buf[p - base + j] == bytes[j] by {
                assert(buf[p - base + j] == m[p + j]);
            }
        }
    }
}

/// The scanner's result from chunk position `current` on: the first hit of
/// the first readable chunk that holds one, the sentinel 0 when the range
/// is exhausted or the remnant is shorter than the pattern.
pub open spec fn scan_from<C: RawChannel>(
    chan: &C,
    bytes: Seq<u8>,
    mask: Seq<bool>,
    current: u64,
    end: u64,
) -> u64
    decreases end - current,
{
    if current >= end {
        0u64
    } else {
        let q: int = if end - current < CHUNK_BYTES {
            end - current
        } else {
            CHUNK_BYTES as int
        };
        if q < bytes.len() {
            0u64
        } else {
            let hit = if chan.read_ok(current, q as usize) {
                first_hit(chan.mem(), bytes, mask, current as int, current + q - bytes.len() + 1)
            } else {
                None
            };
            match hit {
                Some(p) => p as u64,
                None => {
                    let stride: int = CHUNK_BYTES - bytes.len() + 1;
                    if end - current <= stride {
                        0u64
                    } else {
                        scan_from(chan, bytes, mask, (current + stride) as u64, end)
                    }
                },
            }
        }
    }
}

/// The value `sigscan` returns in a given channel state: 0 for a signature
/// whose compiled pattern is empty, otherwise the chunked scan's result
/// over `[start, end)`.
pub open spec fn sigscan_spec<C: RawChannel>(chan: &C, sig: Seq<u8>, start: u64, end: u64) -> u64 {
    let pat = parse_sig(sig);
    if pat.0.len() == 0 {
        0u64
    } else {
        scan_from(chan, pat.0, pat.1, start, end)
    }
}

/// Whether the pattern matches the read buffer at offset `off`.
fn matches_here(buf: &Vec<u8>, bytes: &Vec<u8>, mask: &Vec<bool>, off: usize) -> (r: bool)
    requires
        bytes@.len() == mask@.len(),
        off + bytes@.len() <= buf@.len(),
    ensures
        r == seq_matches(buf@, bytes@, mask@, off as int),
{
    let n = bytes.len();
    let bl = buf.len();
    let mut j: usize = 0;
    while j < n
        invariant
            j <= n,
            n == bytes@.len(),
            mask@.len() == n,
            bl == buf@.len(),
            off + n <= bl,
            forall|k: int| 0 <= k < j && #[trigger] mask@[k] ==> buf@[off + k] == bytes@[k],
        decreases n - j,
    {
        if mask[j] && buf[off + j] != bytes[j] {
            assert(!seq_matches(buf@, bytes@, mask@, off as int));
            return false;
        }
        j += 1;
    }
    true
}

/// Scan `[start, end)` for the first address matching `signature`.
///
/// The signature is compiled with [`parse`]; an empty compiled pattern
/// returns the sentinel 0 at once. The range is then read in chunks of
/// [`CHUNK_BYTES`], consecutive chunk starts `pattern_length - 1` bytes
/// short of a full chunk apart so seam-straddling matches survive; a chunk
/// the channel refuses is skipped; the final chunk is clamped and scanning
/// stops when fewer bytes remain than the pattern is long. The lowest
/// matching address is returned, or the sentinel 0 after the range is
/// exhausted — indistinguishable, by design, from a match at address 0.
#[verifier::loop_isolation(false)]
pub fn sigscan<C: RawChannel>(chan: &C, signature: &str, start: u64, end: u64) -> (r: u64)
    ensures
        r == sigscan_spec(chan, signature.spec_bytes(), start, end),
{
    let ghost sig = signature.spec_bytes();
    let (bytes, mask) = parse(signature);
    let size = bytes.len();
    if size == 0 {
        return 0;
    }
    if size > CHUNK_BYTES {
        assert(scan_from(chan, bytes@, mask@, start, end) == 0);
        return 0;
    }
    let mut current: u64 = start;
    while current < end
        invariant
            scan_from(chan, bytes@, mask@, start, end) == scan_from(
                chan,
                bytes@,
                mask@,
                current,
                end,
            ),
        decreases end - current,
    {
        let rem = end - current;
        let q64 = if rem < CHUNK_BYTES as u64 {
            rem
        } else {
            CHUNK_BYTES as u64
        };
        let q = q64 as usize;
        if q < size {
            assert(scan_from(chan, bytes@, mask@, current, end) == 0);
            return 0;
        }
        let (buf, ok) = chan.read_bytes(current, q);
        if ok {
            proof {
                lemma_window_matches(chan.mem(), buf@, bytes@, mask@, current as int, q as nat);
            }
            let lim = q - size;
            let mut i: usize = 0;
            while i <= lim
                invariant
                    i <= lim + 1,
                    forall|p: int| current <= p < current + i
                        ==> !#[trigger] matches_at(chan.mem(), bytes@, mask@, p),
                decreases lim + 1 - i,
            {
                if matches_here(&buf, &bytes, &mask, i) {
                    proof {
                        assert(matches_at(chan.mem(), bytes@, mask@, current + i));
                        lemma_first_hit_some(
                            chan.mem(),
                            bytes@,
                            mask@,
                            current as int,
                            current + q - size + 1,
                            current + i,
                        );
                        assert(scan_from(chan, bytes@, mask@, current, end) == (current
                            + i) as u64);
                    }
                    return current + i as u64;
                }
                proof {
                    assert(!matches_at(chan.mem(), bytes@, mask@, current + i));
                }
                i += 1;
            }
            proof {
                lemma_first_hit_none(
                    chan.mem(),
                    bytes@,
                    mask@,
                    current as int,
                    current + q - size + 1,
                );
            }
        }
        let stride = CHUNK_BYTES - size + 1;
        if rem <= stride as u64 {
            assert(scan_from(chan, bytes@, mask@, current, end) == 0);
            return 0;
        }
        proof {
            assert(scan_from(chan, bytes@, mask@, current, end) == scan_from(
                chan,
                bytes@,
                mask@,
                (current + stride as u64) as u64,
                end,
            ));
        }
        current = current + stride as u64;
    }
    0
}

/// A signature without a single valid token — empty text, or nothing but
/// malformed tokens — compiles to an empty pattern, and an empty pattern
/// always yields the sentinel 0: it never "matches everywhere".
pub proof fn lemma_sigscan_empty_pattern<C: RawChannel>(
    chan: &C,
    sig: Seq<u8>,
    start: u64,
    end: u64,
)
    requires
        parse_sig(sig).0.len() == 0,
    ensures
        sigscan_spec(chan, sig, start, end) == 0,
{
}

/// Not-found: when no position of the range matches the pattern, the scan
/// returns the sentinel 0 — whatever chunks the channel refused.
pub proof fn lemma_scan_no_match<C: RawChannel>(
    chan: &C,
    bytes: Seq<u8>,
    mask: Seq<bool>,
    current: u64,
    end: u64,
)
    requires
        forall|p: int| current <= p && p + bytes.len() <= end
            ==> !#[trigger] matches_at(chan.mem(), bytes, mask, p),
    ensures
        scan_from(chan, bytes, mask, current, end) == 0,
    decreases end - current,
{
    if current < end {
        let q: int = if end - current < CHUNK_BYTES {
            end - current
        } else {
            CHUNK_BYTES as int
        };
        if q >= bytes.len() {
            if chan.read_ok(current, q as usize) {
                lemma_first_hit_none(
                    chan.mem(),
                    bytes,
                    mask,
                    current as int,
                    current + q - bytes.len() + 1,
                );
            }
            let stride: int = CHUNK_BYTES - bytes.len() + 1;
            if end - current > stride {
                lemma_scan_no_match(chan, bytes, mask, (current + stride) as u64, end);
            }
        }
    }
}

/// Soundness: a nonzero scan result is an address inside the range where
/// the pattern really matches the address space.
pub proof fn lemma_scan_found<C: RawChannel>(
    chan: &C,
    bytes: Seq<u8>,
    mask: Seq<bool>,
    current: u64,
    end: u64,
)
    requires
        scan_from(chan, bytes, mask, current, end) != 0,
    ensures
        ({
            let r = scan_from(chan, bytes, mask, current, end);
            current <= r && r + bytes.len() <= end && matches_at(chan.mem(), bytes, mask, r as int)
        }),
    decreases end - current,
{
    let q: int = if end - current < CHUNK_BYTES {
        end - current
    } else {
        CHUNK_BYTES as int
    };
    if chan.read_ok(current, q as usize) {
        lemma_first_hit_is_match(
            chan.mem(),
            bytes,
            mask,
            current as int,
            current + q - bytes.len() + 1,
        );
    }
    let hit = if chan.read_ok(current, q as usize) {
        first_hit(chan.mem(), bytes, mask, current as int, current + q - bytes.len() + 1)
    } else {
        None
    };
    if current < end && q >= bytes.len() && hit is None {
        let stride: int = CHUNK_BYTES - bytes.len() + 1;
        if end - current > stride {
            lemma_scan_found(chan, bytes, mask, (current + stride) as u64, end);
        }
    }
}

/// Completeness on a cooperative channel: when every in-range chunk read
/// succeeds, the scan returns exactly the lowest matching address — in
/// particular a match straddling a chunk seam is still found.
pub proof fn lemma_scan_complete<C: RawChannel>(
    chan: &C,
    bytes: Seq<u8>,
    mask: Seq<bool>,
    current: u64,
    end: u64,
    p0: int,
)
    requires
        1 <= bytes.len() <= CHUNK_BYTES,
        current <= p0,
        p0 + bytes.len() <= end,
        matches_at(chan.mem(), bytes, mask, p0),
        forall|p: int| current <= p < p0 ==> !#[trigger] matches_at(chan.mem(), bytes, mask, p),
        forall|a: u64, l: usize| current <= a && a + l <= end && l <= CHUNK_BYTES
            ==> #[trigger] chan.read_ok(a, l),
    ensures
        scan_from(chan, bytes, mask, current, end) == p0,
    decreases end - current,
{
    let q: int = if end - current < CHUNK_BYTES {
        end - current
    } else {
        CHUNK_BYTES as int
    };
    assert(q >= bytes.len());
    assert(chan.read_ok(current, q as usize));
    let hi = current + q - bytes.len() + 1;
    if p0 < hi {
        lemma_first_hit_some(chan.mem(), bytes, mask, current as int, hi, p0);
    } else {
        lemma_first_hit_none(chan.mem(), bytes, mask, current as int, hi);
        assert(q == CHUNK_BYTES);
        let stride: int = CHUNK_BYTES - bytes.len() + 1;
        assert(end - current > stride);
        lemma_scan_complete(chan, bytes, mask, (current + stride) as u64, end, p0);
    }
}

/// The scan is a function of the channel state alone: two channels backing
/// the same bytes and accepting the same reads scan identically, so
/// repeating a scan against an unchanged channel repeats its result.
pub proof fn lemma_scan_state_only<C1: RawChannel, C2: RawChannel>(
    c1: &C1,
    c2: &C2,
    bytes: Seq<u8>,
    mask: Seq<bool>,
    current: u64,
    end: u64,
)
    requires
        c1.mem() == c2.mem(),
        forall|a: u64, l: usize| #[trigger] c1.read_ok(a, l) == c2.read_ok(a, l),
    ensures
        scan_from(c1, bytes, mask, current, end) == scan_from(c2, bytes, mask, current, end),
    decreases end - current,
{
    if current < end {
        let q: int = if end - current < CHUNK_BYTES {
            end - current
        } else {
            CHUNK_BYTES as int
        };
        if q >= bytes.len() {
            let stride: int = CHUNK_BYTES - bytes.len() + 1;
            if end - current > stride {
                lemma_scan_state_only(c1, c2, bytes, mask, (current + stride) as u64, end);
            }
        }
    }
}

} // verus!
