use mist::text::{chars_of, decimal, digit_of, hex_text, is_white_space, joined, numeral_text, owned, parse_u32, same_text, trim};

#[test]
fn texts_are_compared_by_characters() {
    assert!(same_text("next", "next"));
    assert!(!same_text("next", "Next"));
    assert!(same_text("", ""));
    assert!(!same_text("a", ""));
}

#[test]
fn texts_are_copied_and_joined() {
    assert_eq!(owned("é"), "é");
    assert_eq!(joined("line: ", "7"), "line: 7");
    assert_eq!(chars_of("aé€"), vec!['a', 'é', '€']);
}

#[test]
fn numerals_are_shortest() {
    assert_eq!(numeral_text(0, 10), "0");
    assert_eq!(numeral_text(1234, 10), "1234");
    assert_eq!(numeral_text(0xdead_beef, 16), "DEADBEEF");
}

#[test]
fn decimals_have_a_sign() {
    assert_eq!(decimal(0), "0");
    assert_eq!(decimal(-17), "-17");
    assert_eq!(decimal(i64::MAX), "9223372036854775807");
    assert_eq!(decimal(i64::MIN), "-9223372036854775808");
}

#[test]
fn addresses_are_upper_case_hexadecimal() {
    assert_eq!(hex_text(0), "0x0");
    assert_eq!(hex_text(0x40_1a2b), "0x401A2B");
    assert_eq!(hex_text(u32::MAX), "0xFFFFFFFF");
}

#[test]
fn white_space_is_that_of_unicode() {
    for c in [' ', '\t', '\n', '\u{b}', '\u{c}', '\r', '\u{85}', '\u{a0}', '\u{2003}', '\u{3000}'] {
        assert!(is_white_space(c));
    }
    for c in ['a', '0', '\0', '\u{1c}', '\u{200b}', '_'] {
        assert!(!is_white_space(c));
    }
}

#[test]
fn trimming_takes_both_ends() {
    assert_eq!(trim(" \t ab c \u{3000}"), vec!['a', 'b', ' ', 'c']);
    assert_eq!(trim("   "), Vec::<char>::new());
    assert_eq!(trim("x"), vec!['x']);
}

#[test]
fn digits_have_values() {
    assert_eq!(digit_of('9', 10), Some(9));
    assert_eq!(digit_of('a', 16), Some(10));
    assert_eq!(digit_of('F', 16), Some(15));
    assert_eq!(digit_of('a', 10), None);
    assert_eq!(digit_of('-', 10), None);
}

#[test]
fn numbers_are_read() {
    assert_eq!(parse_u32(&chars_of("4294967295"), 0, 10), Some(u32::MAX));
    assert_eq!(parse_u32(&chars_of("4294967296"), 0, 10), None);
    assert_eq!(parse_u32(&chars_of("+12"), 0, 10), Some(12));
    assert_eq!(parse_u32(&chars_of("+"), 0, 10), None);
    assert_eq!(parse_u32(&chars_of("-1"), 0, 10), None);
    assert_eq!(parse_u32(&chars_of("0xff"), 2, 16), Some(255));
    assert_eq!(parse_u32(&chars_of(""), 0, 10), None);
}

#[test]
fn numerals_read_back() {
    for n in [0u32, 9, 10, 255, 256, 65535, 1 << 31, u32::MAX] {
        assert_eq!(parse_u32(&chars_of(&numeral_text(n as u64, 10)), 0, 10), Some(n));
        assert_eq!(parse_u32(&chars_of(&numeral_text(n as u64, 16)), 0, 16), Some(n));
    }
}
