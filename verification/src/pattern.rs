//! The signature parser: pattern text compiled into a byte/mask pair.
//!
//! A signature is a sequence of tokens separated by ASCII whitespace. Each
//! token is either exactly two hex digits (case-insensitive), which emits
//! that byte with a concrete mask, or the wildcard `?` / `??`, which emits
//! byte zero with a wildcard mask. Any other token is silently dropped —
//! not reported — a deliberate quirk of the format. The two output
//! sequences always have equal length; empty input yields two empty
//! sequences.

use vstd::prelude::*;
use vstd::slice::slice_to_vec;
use vstd::string::StringSliceAdditionalSpecFns;

verus! {

/// ASCII whitespace: the token separators of the signature format.
pub open spec fn is_space(b: u8) -> bool {
    b == 32 || b == 9 || b == 10 || b == 11 || b == 12 || b == 13
}

/// Hex digit, either case.
pub open spec fn is_hex(b: u8) -> bool {
    (48 <= b <= 57) || (97 <= b <= 102) || (65 <= b <= 70)
}

/// The value of a hex digit.
pub open spec fn hex_val(b: u8) -> u8 {
    if 48 <= b <= 57 {
        (b - 48) as u8
    } else if 97 <= b <= 102 {
        (b - 87) as u8
    } else if 65 <= b <= 70 {
        (b - 55) as u8
    } else {
        0u8
    }
}

/// A wildcard token: `?` or `??`.
pub open spec fn is_wildcard(t: Seq<u8>) -> bool {
    (t.len() == 1 && t[0] == 63) || (t.len() == 2 && t[0] == 63 && t[1] == 63)
}

/// A concrete-byte token: exactly two hex digits.
pub open spec fn is_hex_pair(t: Seq<u8>) -> bool {
    t.len() == 2 && is_hex(t[0]) && is_hex(t[1])
}

/// What one token contributes to the pattern: a wildcard position, a
/// concrete byte, or — for a malformed token — nothing at all.
pub open spec fn classify(t: Seq<u8>) -> (Seq<u8>, Seq<bool>) {
    if is_wildcard(t) {
        (seq![0u8], seq![false])
    } else if is_hex_pair(t) {
        (seq![(16 * hex_val(t[0]) + hex_val(t[1])) as u8], seq![true])
    } else {
        (Seq::<u8>::empty(), Seq::<bool>::empty())
    }
}

/// Length of the maximal non-whitespace run at the head of `s`: the first
/// token's length when `s` starts with one.
pub open spec fn token_len(s: Seq<u8>) -> nat
    decreases s.len(),
{
    if s.len() == 0 || is_space(s[0]) {
        0
    } else {
        1 + token_len(s.drop_first())
    }
}

/// The head token occupies exactly the leading non-whitespace run.
pub proof fn lemma_token_len_is_run(s: Seq<u8>, k: int)
    requires
        0 <= k <= s.len(),
        forall|j: int| 0 <= j < k ==> !is_space(#[trigger] s[j]),
        k == s.len() || is_space(s[k]),
    ensures
        token_len(s) == k,
    decreases k,
{
    if k == 0 {
    } else {
        lemma_token_len_is_run(s.drop_first(), k - 1);
    }
}

/// The compiled pattern of signature text `s`: the parallel byte and mask
/// sequences its valid tokens emit, in order.
pub open spec fn parse_sig(s: Seq<u8>) -> (Seq<u8>, Seq<bool>)
    decreases s.len(),
    via parse_sig_decreases
{
    if s.len() == 0 {
        (Seq::<u8>::empty(), Seq::<bool>::empty())
    } else if is_space(s[0]) {
        parse_sig(s.drop_first())
    } else {
        let t = token_len(s) as int;
        let head = classify(s.take(t));
        let rest = parse_sig(s.skip(t));
        (head.0 + rest.0, head.1 + rest.1)
    }
}

#[via_fn]
proof fn parse_sig_decreases(s: Seq<u8>) {
    if s.len() > 0 && !is_space(s[0]) {
        lemma_token_len_bounds(s);
    }
}

/// A head token is at least one byte long and no longer than the input.
pub proof fn lemma_token_len_bounds(s: Seq<u8>)
    requires
        s.len() > 0,
        !is_space(s[0]),
    ensures
        1 <= token_len(s) <= s.len(),
    decreases s.len(),
{
    if s.len() > 1 && !is_space(s[1]) {
        lemma_token_len_bounds(s.drop_first());
    } else {
        reveal_with_fuel(token_len, 2);
    }
}

/// The byte and mask sequences of a compiled pattern have equal length, and
/// every wildcard position carries byte zero.
pub proof fn lemma_parse_sig_wf(s: Seq<u8>)
    ensures
        parse_sig(s).0.len() == parse_sig(s).1.len(),
        forall|j: int| 0 <= j < parse_sig(s).0.len() && !(#[trigger] parse_sig(s).1[j])
            ==> parse_sig(s).0[j] == 0,
    decreases s.len(),
{
    if s.len() == 0 {
    } else if is_space(s[0]) {
        lemma_parse_sig_wf(s.drop_first());
    } else {
        lemma_token_len_bounds(s);
        let t = token_len(s) as int;
        lemma_parse_sig_wf(s.skip(t));
    }
}

/// Exec check for a whitespace byte.
fn is_space_byte(b: u8) -> (r: bool)
    ensures
        r == is_space(b),
{
    b == 32 || b == 9 || b == 10 || b == 11 || b == 12 || b == 13
}

/// Exec check for a hex digit.
fn is_hex_byte(b: u8) -> (r: bool)
    ensures
        r == is_hex(b),
{
    (48 <= b && b <= 57) || (97 <= b && b <= 102) || (65 <= b && b <= 70)
}

/// Exec value of a hex digit.
fn hex_byte_val(b: u8) -> (r: u8)
    ensures
        r == hex_val(b),
{
    if 48 <= b && b <= 57 {
        b - 48
    } else if 97 <= b && b <= 102 {
        b - 87
    } else if 65 <= b && b <= 70 {
        b - 55
    } else {
        0
    }
}

/// Compile a textual signature into its byte sequence and wildcard mask.
///
/// Tokens are separated by ASCII whitespace; a token is two hex digits
/// (emitting that byte, mask true) or `?` / `??` (emitting zero, mask
/// false); every other token is silently dropped. The two vectors returned
/// always have equal length.
pub fn parse(signature: &str) -> (r: (Vec<u8>, Vec<bool>))
    ensures
        r.0@ == parse_sig(signature.spec_bytes()).0,
        r.1@ == parse_sig(signature.spec_bytes()).1,
        r.0@.len() == r.1@.len(),
{
    let ghost s = signature.spec_bytes();
    let v: Vec<u8> = slice_to_vec(signature.as_bytes());
    let n = v.len();
    let mut bytes: Vec<u8> = Vec::new();
    let mut mask: Vec<bool> = Vec::new();
    let mut i: usize = 0;
    proof {
        assert(s.skip(0) =~= s);
        assert(Seq::<u8>::empty() + parse_sig(s).0 =~= parse_sig(s).0);
        assert(Seq::<bool>::empty() + parse_sig(s).1 =~= parse_sig(s).1);
    }
    while i < n
        invariant
            i <= n,
            n == s.len(),
            v@ == s,
            bytes@ + parse_sig(s.skip(i as int)).0 == parse_sig(s).0,
            mask@ + parse_sig(s.skip(i as int)).1 == parse_sig(s).1,
            bytes@.len() == mask@.len(),
        decreases n - i,
    {
        if is_space_byte(v[i]) {
            proof {
                assert(s.skip(i as int).drop_first() =~= s.skip(i + 1));
            }
            i += 1;
        } else {
            let start = i;
            i += 1;
            while i < n && !is_space_byte(v[i])
                invariant
                    start < i <= n,
                    n == s.len(),
                    v@ == s,
                    forall|j: int| start <= j < i ==> !is_space(#[trigger] s[j]),
                decreases n - i,
            {
                i += 1;
            }
            let ghost u = s.skip(start as int);
            let ghost tl = (i - start) as int;
            proof {
                assert(forall|j: int| 0 <= j < tl ==> !is_space(#[trigger] u[j]));
                assert(i < n ==> is_space(u[tl]));
                lemma_token_len_is_run(u, tl);
                assert(u.skip(tl) =~= s.skip(i as int));
                assert(u.take(tl) =~= s.subrange(start as int, i as int));
            }
            let ghost tok = s.subrange(start as int, i as int);
            let ghost b0 = bytes@;
            let ghost m0 = mask@;
            if i - start == 1 && v[start] == 63 {
                bytes.push(0);
                mask.push(false);
                proof {
                    assert(is_wildcard(tok));
                    assert(classify(tok) == (seq![0u8], seq![false]));
                }
            } else if i - start == 2 && v[start] == 63 && v[start + 1] == 63 {
                bytes.push(0);
                mask.push(false);
                proof {
                    assert(is_wildcard(tok));
                    assert(classify(tok) == (seq![0u8], seq![false]));
                }
            } else if i - start == 2 && is_hex_byte(v[start]) && is_hex_byte(v[start + 1]) {
                let hi = hex_byte_val(v[start]);
                let lo = hex_byte_val(v[start + 1]);
                bytes.push(16 * hi + lo);
                mask.push(true);
                proof {
                    assert(!is_wildcard(tok));
                    assert(is_hex_pair(tok));
                    assert(classify(tok) == (
                        seq![(16 * hex_val(tok[0]) + hex_val(tok[1])) as u8],
                        seq![true],
                    ));
                }
            } else {
                proof {
                    assert(!is_wildcard(tok));
                    assert(!is_hex_pair(tok));
                    assert(classify(tok) == (Seq::<u8>::empty(), Seq::<bool>::empty()));
                }
            }
            proof {
                assert(parse_sig(u).0 == classify(tok).0 + parse_sig(s.skip(i as int)).0);
                assert(parse_sig(u).1 == classify(tok).1 + parse_sig(s.skip(i as int)).1);
                assert(bytes@ =~= b0 + classify(tok).0);
                assert(mask@ =~= m0 + classify(tok).1);
                assert(bytes@ + parse_sig(s.skip(i as int)).0 =~= b0 + parse_sig(u).0);
                assert(mask@ + parse_sig(s.skip(i as int)).1 =~= m0 + parse_sig(u).1);
            }
        }
    }
    proof {
        assert(s.skip(n as int) =~= Seq::<u8>::empty());
        assert(bytes@ =~= parse_sig(s).0);
        assert(mask@ =~= parse_sig(s).1);
        lemma_parse_sig_wf(s);
    }
    (bytes, mask)
}

} // verus!
