use iradio_bridge::text::{
    chars_of, dec_string, find_chars, hex4_string, parse_hex_u32, parse_unsigned, trim_char_chars,
    trim_chars,
};

fn s(v: Vec<char>) -> String {
    v.into_iter().collect()
}

#[test]
fn decimal_and_hex_rendering() {
    assert_eq!(dec_string(0), "0");
    assert_eq!(dec_string(48000), "48000");
    assert_eq!(hex4_string(10), "000a");
    assert_eq!(hex4_string(0xabd7), "abd7");
    assert_eq!(hex4_string(0x12345), "12345");
}

#[test]
fn unsigned_parsing() {
    assert_eq!(parse_unsigned("8765", 65535), Some(8765));
    assert_eq!(parse_unsigned("+1", 65535), Some(1));
    assert_eq!(parse_unsigned("65536", 65535), None);
    assert_eq!(parse_unsigned("", 65535), None);
    assert_eq!(parse_unsigned("+", 65535), None);
    assert_eq!(parse_unsigned("-1", 65535), None);
    assert_eq!(parse_unsigned(" 1", 65535), None);
}

#[test]
fn hex_parsing() {
    assert_eq!(parse_hex_u32("abcd"), Some(0xabcd));
    assert_eq!(parse_hex_u32("FFFFFFFF"), Some(u32::MAX));
    assert_eq!(parse_hex_u32("100000000"), None);
    assert_eq!(parse_hex_u32("xyz"), None);
    assert_eq!(parse_hex_u32(""), None);
}

#[test]
fn trimming_and_finding() {
    assert_eq!(s(trim_chars(&chars_of("  a b \t\n"))), "a b");
    assert_eq!(s(trim_char_chars(&chars_of("\"x\"\""), '"')), "x");
    assert_eq!(find_chars(&chars_of("abcabc"), &chars_of("ca"), 0), Some(2));
    assert_eq!(find_chars(&chars_of("abcabc"), &chars_of("bc"), 2), Some(4));
    assert_eq!(find_chars(&chars_of("abc"), &chars_of("x"), 0), None);
}
