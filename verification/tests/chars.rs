use mung::chars::CharIter;
use mung::error::DecodeError;

fn reader(s: &str) -> CharIter {
    CharIter::new(s.as_bytes().to_vec())
}

/// 3 bytes per char
#[test]
fn test_japanese() {
    let s = "おはよう世界";
    let mut iter = reader(s);
    assert_eq!(iter.next(), Ok(Some('お')));
    assert_eq!(iter.next(), Ok(Some('は')));
    assert_eq!(iter.next(), Ok(Some('よ')));
    assert_eq!(iter.next(), Ok(Some('う')));
    assert_eq!(iter.next(), Ok(Some('世')));
    assert_eq!(iter.next(), Ok(Some('界')));
    assert_eq!(iter.next(), Ok(None));
}

/// 4 bytes per char
#[test]
fn test_emoji() {
    let s = "💚🙈🌈";
    let mut iter = reader(s);
    assert_eq!(iter.next(), Ok(Some('💚')));
    assert_eq!(iter.next(), Ok(Some('🙈')));
    assert_eq!(iter.next(), Ok(Some('🌈')));
    assert_eq!(iter.next(), Ok(None));
}

/// 1 byte per char
#[test]
fn test_ascii() {
    let s = "abc";
    let mut iter = reader(s);
    assert_eq!(iter.next(), Ok(Some('a')));
    assert_eq!(iter.next(), Ok(Some('b')));
    assert_eq!(iter.next(), Ok(Some('c')));
    assert_eq!(iter.next(), Ok(None));
}

/// 2 bytes per char
#[test]
fn test_greek() {
    let s = "ΔΣψ";
    let mut iter = reader(s);
    assert_eq!(iter.next(), Ok(Some('Δ')));
    assert_eq!(iter.next(), Ok(Some('Σ')));
    assert_eq!(iter.next(), Ok(Some('ψ')));
    assert_eq!(iter.next(), Ok(None));
}

#[test]
fn empty_source_ends_at_once() {
    let mut iter = CharIter::new(Vec::new());
    assert_eq!(iter.peek(), Ok(None));
    assert_eq!(iter.next(), Ok(None));
    assert_eq!(iter.next(), Ok(None));
}

#[test]
fn peek_does_not_move() {
    let mut iter = reader("xy");
    assert_eq!(iter.peek(), Ok(Some('x')));
    assert_eq!(iter.peek(), Ok(Some('x')));
    assert_eq!(iter.next(), Ok(Some('x')));
    assert_eq!(iter.peek(), Ok(Some('y')));
    assert_eq!(iter.next(), Ok(Some('y')));
    assert_eq!(iter.peek(), Ok(None));
}

#[test]
fn mixed_widths_assemble_most_significant_first() {
    // 0x24, 0xA2, 0x20AC, 0x10348
    let bytes = vec![0x24, 0xC2, 0xA2, 0xE2, 0x82, 0xAC, 0xF0, 0x90, 0x8D, 0x88];
    let mut iter = CharIter::new(bytes);
    assert_eq!(iter.next(), Ok(Some('\u{24}')));
    assert_eq!(iter.next(), Ok(Some('\u{A2}')));
    assert_eq!(iter.next(), Ok(Some('\u{20AC}')));
    assert_eq!(iter.next(), Ok(Some('\u{10348}')));
    assert_eq!(iter.next(), Ok(None));
}

#[test]
fn largest_and_smallest_scalars() {
    let mut iter = CharIter::new(vec![0x00, 0x7F, 0xF4, 0x8F, 0xBF, 0xBF, 0xEF, 0xBF, 0xBF]);
    assert_eq!(iter.next(), Ok(Some('\u{0}')));
    assert_eq!(iter.next(), Ok(Some('\u{7F}')));
    assert_eq!(iter.next(), Ok(Some('\u{10FFFF}')));
    assert_eq!(iter.next(), Ok(Some('\u{FFFF}')));
    assert_eq!(iter.next(), Ok(None));
}

#[test]
fn bad_lead_byte_is_a_fault() {
    // 10xxxxxx and 11111xxx begin no character
    let mut iter = CharIter::new(vec![b'a', 0x80, b'b']);
    assert_eq!(iter.next(), Ok(Some('a')));
    assert_eq!(iter.next(), Err(DecodeError::BadLead));
    let mut iter = CharIter::new(vec![0xF8, 0x80, 0x80, 0x80, 0x80]);
    assert_eq!(iter.next(), Err(DecodeError::BadLead));
    let mut iter = CharIter::new(vec![0xFF]);
    assert_eq!(iter.peek(), Err(DecodeError::BadLead));
}

#[test]
fn truncated_sequence_is_a_fault() {
    let mut iter = CharIter::new(vec![b'a', 0xE3, 0x81]);
    assert_eq!(iter.next(), Ok(Some('a')));
    assert_eq!(iter.next(), Err(DecodeError::Truncated));
    let mut iter = CharIter::new(vec![0xC3]);
    assert_eq!(iter.next(), Err(DecodeError::Truncated));
    let mut iter = CharIter::new(vec![0xF0, 0x9F, 0x92]);
    assert_eq!(iter.next(), Err(DecodeError::Truncated));
}

#[test]
fn value_that_is_no_scalar_is_a_fault() {
    // a surrogate, 0xD800
    let mut iter = CharIter::new(vec![0xED, 0xA0, 0x80]);
    assert_eq!(iter.next(), Err(DecodeError::NotScalar));
    // 0x1FFFFF, beyond the last scalar
    let mut iter = CharIter::new(vec![0xF7, 0xBF, 0xBF, 0xBF]);
    assert_eq!(iter.next(), Err(DecodeError::NotScalar));
    // 0x110000, the first value beyond the last scalar
    let mut iter = CharIter::new(vec![0xF4, 0x90, 0x80, 0x80]);
    assert_eq!(iter.next(), Err(DecodeError::NotScalar));
}

#[test]
fn fault_is_met_again_on_every_later_read() {
    let mut iter = CharIter::new(vec![b'a', 0xFF, b'b']);
    assert_eq!(iter.next(), Ok(Some('a')));
    assert_eq!(iter.next(), Err(DecodeError::BadLead));
    assert_eq!(iter.next(), Err(DecodeError::BadLead));
    assert_eq!(iter.peek(), Err(DecodeError::BadLead));
}

#[test]
fn following_bytes_give_their_low_six_bits_whatever_their_pattern() {
    // 0xC3 0x28: (0x03 << 6) | 0x28 = 0xE8
    let mut iter = CharIter::new(vec![0xC3, 0x28]);
    assert_eq!(iter.next(), Ok(Some('\u{E8}')));
    assert_eq!(iter.next(), Ok(None));
    // a short value in a long form: 0xC1 0x81 is 0x41
    let mut iter = CharIter::new(vec![0xC1, 0x81]);
    assert_eq!(iter.next(), Ok(Some('A')));
}
