use mist::utility::{c_string, compare_pcwstr_case_insensitive, cstr_to_string, to_pcstr, wide_to_string};

fn wide(text: &str) -> Vec<u16> {
    text.encode_utf16().collect()
}

#[test]
fn test_cstr_to_string_valid() {
    let original = "Hello, world!";
    let result = cstr_to_string(Some(original.as_bytes()));
    assert_eq!(result, Some(original.to_string()));
}

#[test]
fn test_compare_pcwstr_case_insensitive_match() {
    let a = wide("HelloWorld");
    let b = wide("helloworld");
    assert!(compare_pcwstr_case_insensitive(&a, &b));
}

#[test]
fn test_compare_pcwstr_case_insensitive_mismatch() {
    let a = wide("HelloWorld");
    let b = wide("HellooWorld");
    assert!(!compare_pcwstr_case_insensitive(&a, &b));
}

#[test]
fn no_c_string_gives_no_text() {
    assert_eq!(cstr_to_string(None), None);
}

#[test]
fn empty_c_string_is_empty_text() {
    assert_eq!(cstr_to_string(Some(&[])), Some(String::new()));
}

#[test]
fn c_string_beyond_ascii_reads_back() {
    let original = "Pfad/zu/Ärger €\u{1F600}";
    assert_eq!(cstr_to_string(Some(original.as_bytes())), Some(original.to_string()));
}

#[test]
fn broken_utf8_is_replaced() {
    let bytes: [u8; 3] = [b'a', 0xff, b'b'];
    assert_eq!(cstr_to_string(Some(&bytes)), Some("a\u{FFFD}b".to_string()));
}

#[test]
fn c_string_ends_in_zero() {
    assert_eq!(c_string("ab"), Some(vec![b'a', b'b', 0]));
    assert_eq!(c_string(""), Some(vec![0]));
    assert_eq!(to_pcstr("é"), vec![0xc3, 0xa9, 0]);
}

#[test]
fn c_string_refuses_inner_zero() {
    assert_eq!(c_string("a\0b"), None);
    assert_eq!(c_string("\0"), None);
}

#[test]
fn wide_text_is_decoded() {
    assert_eq!(wide_to_string(&[0x41, 0x20ac]), Some("A€".to_string()));
    assert_eq!(wide_to_string(&[0xd83d, 0xde00]), Some("\u{1F600}".to_string()));
    assert_eq!(wide_to_string(&[]), Some(String::new()));
}

#[test]
fn unpaired_surrogates_are_no_text() {
    assert_eq!(wide_to_string(&[0xd83d]), None);
    assert_eq!(wide_to_string(&[0xde00, 0xd83d]), None);
    assert_eq!(wide_to_string(&[0xd83d, 0x41]), None);
}

#[test]
fn different_texts_have_different_units() {
    assert_ne!(wide("\u{FFFF}"), wide("\u{10000}"));
    assert_eq!(wide_to_string(&wide("\u{10000}")), Some("\u{10000}".to_string()));
}

#[test]
fn comparison_folds_letters_beyond_ascii() {
    assert!(compare_pcwstr_case_insensitive(&wide("ÄRGER.EXE"), &wide("ärger.exe")));
    assert!(!compare_pcwstr_case_insensitive(&wide("arger.exe"), &wide("ärger.exe")));
}

#[test]
fn broken_names_equal_nothing() {
    let broken: [u16; 1] = [0xd800];
    assert!(!compare_pcwstr_case_insensitive(&broken, &broken));
    assert!(!compare_pcwstr_case_insensitive(&broken, &wide("a")));
    assert!(!compare_pcwstr_case_insensitive(&wide("a"), &broken));
}

#[test]
fn comparison_is_an_equivalence() {
    let (a, b, c) = (wide("MIST.exe"), wide("mist.EXE"), wide("Mist.Exe"));
    assert!(compare_pcwstr_case_insensitive(&a, &a));
    assert!(compare_pcwstr_case_insensitive(&a, &b) && compare_pcwstr_case_insensitive(&b, &a));
    assert!(compare_pcwstr_case_insensitive(&b, &c) && compare_pcwstr_case_insensitive(&a, &c));
}
