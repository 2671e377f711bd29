//! Signature parsing: hex tokens, wildcards, and the silent dropping of
//! malformed tokens.

use memscan::parse;

#[test]
fn parse_hex_and_wildcard() {
    let (bytes, mask) = parse("AA ? BB");
    assert_eq!(bytes, vec![0xAA, 0x00, 0xBB]);
    assert_eq!(mask, vec![true, false, true]);
}

#[test]
fn parse_drops_malformed_token() {
    let (bytes, mask) = parse("ZZ AA");
    assert_eq!(bytes, vec![0xAA]);
    assert_eq!(mask, vec![true]);
}

#[test]
fn parse_empty_input() {
    let (bytes, mask) = parse("");
    assert!(bytes.is_empty());
    assert!(mask.is_empty());
}

#[test]
fn parse_whitespace_only() {
    let (bytes, mask) = parse(" \t\r\n  ");
    assert!(bytes.is_empty());
    assert!(mask.is_empty());
}

#[test]
fn parse_double_question_wildcard() {
    let (bytes, mask) = parse("?? 10 ?");
    assert_eq!(bytes, vec![0x00, 0x10, 0x00]);
    assert_eq!(mask, vec![false, true, false]);
}

#[test]
fn parse_case_insensitive_hex() {
    let (bytes, mask) = parse("aa Bb 0f E4");
    assert_eq!(bytes, vec![0xAA, 0xBB, 0x0F, 0xE4]);
    assert_eq!(mask, vec![true, true, true, true]);
}

#[test]
fn parse_drops_wrong_length_tokens() {
    // One digit, three digits, three question marks: all dropped.
    let (bytes, mask) = parse("A ABC ??? 7F");
    assert_eq!(bytes, vec![0x7F]);
    assert_eq!(mask, vec![true]);
}

#[test]
fn parse_drops_mixed_tokens() {
    // A wildcard glued to a digit is neither wildcard nor hex pair.
    let (bytes, mask) = parse("?A A? 0G 12");
    assert_eq!(bytes, vec![0x12]);
    assert_eq!(mask, vec![true]);
}

#[test]
fn parse_any_ascii_whitespace_separates() {
    let (bytes, mask) = parse("\t01\n02  03\r04 ");
    assert_eq!(bytes, vec![0x01, 0x02, 0x03, 0x04]);
    assert_eq!(mask, vec![true, true, true, true]);
}

#[test]
fn parse_all_tokens_malformed() {
    let (bytes, mask) = parse("GG xx 123 -1");
    assert!(bytes.is_empty());
    assert!(mask.is_empty());
}

#[test]
fn parse_outputs_same_length() {
    for sig in ["", "AA", "AA ?", "junk AA ?? Z", "? ? ?"] {
        let (bytes, mask) = parse(sig);
        assert_eq!(bytes.len(), mask.len());
    }
}
