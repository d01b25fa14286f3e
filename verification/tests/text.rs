use litewire::text::{
    char_is_space, chars_of, contains, decimal_text, first_at, last_at, lower_chars, parse_i64,
    signed_decimal_text, starts_with, string_of, trimmed, trimmed_upper, upper_chars,
};
use litewire::utf16::{decode_utf16le, encode_utf16le};

fn white_space_is_that_of_std() {
    for c in '\0'..=char::MAX {
        assert_eq!(char_is_space(c), c.is_whitespace(), "{c:?}");
    }
}

fn ascii_case_is_that_of_std() {
    let text = "AzÉßé@[`{ 09";
    let chars = chars_of(text);
    assert_eq!(string_of(&upper_chars(&chars)), text.to_ascii_uppercase());
    assert_eq!(string_of(&lower_chars(&chars)), text.to_ascii_lowercase());
}

fn searching() {
    let hay = chars_of("abcabc");
    let needle = chars_of("bc");
    assert_eq!(first_at(&hay, &needle), Some(1));
    assert_eq!(last_at(&hay, &needle), Some(4));
    assert_eq!(first_at(&hay, &chars_of("x")), None);
    assert_eq!(last_at(&hay, &chars_of("abcabcd")), None);
    assert_eq!(first_at(&hay, &[]), Some(0));
    assert_eq!(last_at(&hay, &[]), Some(6));
    assert!(contains(&hay, "cab") && !contains(&hay, "cba") && contains(&hay, ""));
    assert!(starts_with(&hay, "abc") && !starts_with(&hay, "bc"));
}

fn trimming() {
    for s in ["", "  ", " a b ", "\u{3000}x\u{85}", "x"] {
        assert_eq!(string_of(trimmed(&chars_of(s))), s.trim(), "{s:?}");
        assert_eq!(string_of(&trimmed_upper(s)), s.trim().to_ascii_uppercase(), "{s:?}");
    }
}

fn integers_read_as_std_reads_them() {
    for s in [
        "", "0", "-0", "+0", "+", "-", "--1", "+-1", "1a", " 1", "1 ", "007",
        "9223372036854775807", "9223372036854775808", "-9223372036854775808",
        "-9223372036854775809", "99999999999999999999999999", "\u{0661}",
    ] {
        assert_eq!(parse_i64(s), s.parse::<i64>().ok(), "{s:?}");
    }
}

fn integers_read_back() {
    for i in [0, 1, -1, 9, 10, -10, i64::MAX, i64::MIN] {
        assert_eq!(signed_decimal_text(i), i.to_string());
        assert_eq!(parse_i64(&signed_decimal_text(i)), Some(i));
    }
    assert_eq!(decimal_text(u64::MAX), u64::MAX.to_string());
}

fn utf16_reads_back() {
    for s in ["", "a", "é", "😀x", "\u{FFFF}\u{10000}\u{D7FF}\u{E000}"] {
        let bytes = encode_utf16le(s);
        let expected: Vec<u8> = s.encode_utf16().flat_map(u16::to_le_bytes).collect();
        assert_eq!(bytes, expected, "{s:?}");
        assert_eq!(decode_utf16le(&bytes), Some(s.to_string()));
    }
}

fn bytes_that_are_not_utf16() {
    assert_eq!(decode_utf16le(&[0x41]), None);
    assert_eq!(decode_utf16le(&[0x00, 0xD8]), None);
    assert_eq!(decode_utf16le(&[0x00, 0xDC]), None);
    assert_eq!(decode_utf16le(&[0x00, 0xD8, 0x41, 0x00]), None);
    assert_eq!(decode_utf16le(&[0x00, 0xDC, 0x00, 0xD8]), None);
}

#[test]
fn characters() {
    white_space_is_that_of_std();
    ascii_case_is_that_of_std();
    searching();
    trimming();
}

#[test]
fn numbers_and_units() {
    integers_read_as_std_reads_them();
    integers_read_back();
    utf16_reads_back();
    bytes_that_are_not_utf16();
}
