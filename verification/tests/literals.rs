use winstr::bstr::BStr;
use winstr::bstring::BString;
use winstr::literal::LiteralError;
use winstr::literal::decode_literal;
use winstr::literal::parse_str;
use winstr::packed::from_packed;
use winstr::packed::pack_bstr_words;

#[test]
fn literal_hello() {
    let words = parse_str("\"Hello\"").unwrap();
    // Byte-length prefix 10, code units paired low-first, zero terminator word.
    assert_eq!(words, vec![10u32, 0x0065_0048, 0x006C_006C, 0x0000_006F, 0]);
    let l = from_packed(&words).unwrap();
    assert_eq!(l.units(), &[72, 101, 108, 108, 111]);
    assert_eq!(*l.units0().last().unwrap(), 0u16);
    let same = BString::from_str("Hello").unwrap();
    assert!(l == same);
}

#[test]
fn literal_surrogate_pair_escape() {
    let words = parse_str("\"\\u{1F600}\"").unwrap();
    let expected: Vec<u16> = "\u{1F600}".encode_utf16().collect();
    assert_eq!(expected, vec![0xD83D, 0xDE00]);
    // Two code units, so the byte-length prefix doubles to 4.
    assert_eq!(words[0], 4);
    assert_eq!(words, vec![4u32, 0xDE00_D83D, 0]);
    let l = from_packed(&words).unwrap();
    assert_eq!(l.units(), &expected[..]);
}

#[test]
fn literal_simple_escapes() {
    let units = decode_literal("\"\\0\\t\\n\\r\\\\\\'\\\"\"").unwrap();
    assert_eq!(units, vec![0, 9, 10, 13, 92, 39, 34]);
}

#[test]
fn literal_byte_escape() {
    let units = decode_literal("\"\\x12\\xaF\"").unwrap();
    assert_eq!(units, vec![0x12, 0xAF]);
}

#[test]
fn literal_unknown_escape_passes_through() {
    let units = decode_literal("\"\\q\\u{41}\"").unwrap();
    assert_eq!(units, vec![b'q' as u16, 0x41]);
}

#[test]
fn literal_empty() {
    let words = parse_str("\"\"").unwrap();
    assert_eq!(words, vec![0u32, 0]);
    let l = from_packed(&words).unwrap();
    assert_eq!(l.len(), 0);
}

#[test]
fn literal_errors() {
    assert_eq!(parse_str("Hello").unwrap_err(), LiteralError::NoOpeningQuote);
    assert_eq!(parse_str("").unwrap_err(), LiteralError::NoOpeningQuote);
    assert_eq!(parse_str("\"").unwrap_err(), LiteralError::NoClosingQuote);
    assert_eq!(parse_str("\"Hello").unwrap_err(), LiteralError::NoClosingQuote);
    assert_eq!(parse_str("\"a\\\"").unwrap_err(), LiteralError::LoneBackslash);
    assert_eq!(parse_str("\"\\xG1\"").unwrap_err(), LiteralError::BadByteEscape);
    assert_eq!(parse_str("\"\\x1\"").unwrap_err(), LiteralError::BadByteEscape);
    assert_eq!(parse_str("\"\\u123\"").unwrap_err(), LiteralError::BadUnicodeBrace);
    assert_eq!(parse_str("\"\\u\"").unwrap_err(), LiteralError::BadUnicodeBrace);
    assert_eq!(parse_str("\"\\u{}\"").unwrap_err(), LiteralError::BadUnicodeEscape);
    assert_eq!(parse_str("\"\\u{1234567}\"").unwrap_err(), LiteralError::BadUnicodeEscape);
    assert_eq!(parse_str("\"\\u{12 }\"").unwrap_err(), LiteralError::BadUnicodeEscape);
    assert_eq!(parse_str("\"\\u{D800}\"").unwrap_err(), LiteralError::InvalidScalar);
    assert_eq!(parse_str("\"\\u{110000}\"").unwrap_err(), LiteralError::InvalidScalar);
}

#[test]
fn pack_unpack_round_trip() {
    let cases: &[&[u16]] = &[&[], &[1], &[1, 2], &[1, 2, 3], &[0xFFFF, 0, 7]];
    for units in cases {
        let words = pack_bstr_words(units).unwrap();
        assert_eq!(words[0] as usize, 2 * units.len());
        assert_eq!(*words.last().unwrap(), 0u32);
        let b = from_packed(&words).unwrap();
        assert_eq!(b.units(), *units);
    }
}

#[test]
fn packed_layout_rejections() {
    // Too short.
    assert!(from_packed(&[0]).is_none());
    // Odd byte-length prefix.
    assert!(from_packed(&[3, 0, 0]).is_none());
    // Word count disagrees with the prefix.
    assert!(from_packed(&[2, 0x48, 0, 0]).is_none());
    // Final word is not the zero terminator.
    assert!(from_packed(&[2, 0x48, 7]).is_none());
    // Odd unit count with a non-zero pad unit.
    assert!(from_packed(&[2, 0x0001_0048, 0]).is_none());
    // The same layout with a zero pad unit is accepted.
    let b = from_packed(&[2, 0x48, 0]).unwrap();
    assert_eq!(b.units(), &[0x48]);
}

#[test]
fn macro_impl_detail_trusts_producer() {
    let words = parse_str("\"Hi\"").unwrap();
    let b = BStr::bstr_macro_impl_detail(&words);
    assert_eq!(b.units(), &[72, 105]);
}

#[test]
fn error_messages_name_the_fault() {
    assert!(LiteralError::NoOpeningQuote.message().contains("start"));
    assert!(LiteralError::LoneBackslash.message().contains("after"));
    assert!(LiteralError::BadByteEscape.message().contains("hexadecimal"));
    assert!(LiteralError::BadUnicodeBrace.message().contains("{"));
    assert!(LiteralError::BadUnicodeEscape.message().contains("1-6"));
    assert!(LiteralError::InvalidScalar.message().contains("codepoint"));
}
