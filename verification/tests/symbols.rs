use mist::breakpoints;
use mist::debug_engine;
use mist::symbols::{read_address, BareDigits, SymbolTable};
use mist::text::{hex_text, numeral_text};

fn names_of_functions(names: &[&str]) -> Vec<String> {
    names.iter().map(|name| name.to_string()).collect()
}

const BOTH: [BareDigits; 2] = [BareDigits::Decimal, BareDigits::Hexadecimal];

#[test]
fn literals_are_hexadecimal_behind_their_prefix() {
    for bare in BOTH {
        assert_eq!(read_address("0x401000", bare), Some(0x40_1000));
        assert_eq!(read_address("0XfF", bare), Some(0xff));
        assert_eq!(read_address("0x+ff", bare), Some(0xff));
        assert_eq!(read_address("0x", bare), None);
        assert_eq!(read_address("0xg", bare), None);
        assert_eq!(read_address("0x100000000", bare), None);
    }
}

#[test]
fn bare_digits_are_decimal_in_the_registry() {
    assert_eq!(breakpoints::parse_address_literal("10"), Some(10));
    assert_eq!(breakpoints::parse_address_literal("0010"), Some(10));
    assert_eq!(breakpoints::parse_address_literal("123456789"), Some(123_456_789));
    assert_eq!(breakpoints::parse_address_literal("4294967295"), Some(u32::MAX));
    assert_eq!(breakpoints::parse_address_literal("4294967296"), None);
}

#[test]
fn bare_digits_are_hexadecimal_in_the_engine() {
    assert_eq!(debug_engine::parse_address_literal("10"), Some(0x10));
    assert_eq!(debug_engine::parse_address_literal("0010"), Some(0x10));
    assert_eq!(debug_engine::parse_address_literal("401000"), Some(0x40_1000));
    assert_eq!(debug_engine::parse_address_literal("12345678"), Some(0x1234_5678));
    assert_eq!(debug_engine::parse_address_literal("123456789"), None);
}

#[test]
fn digits_with_a_letter_are_hexadecimal() {
    for bare in BOTH {
        assert_eq!(read_address("deadBEEF", bare), Some(0xdead_beef));
        assert_eq!(read_address("1a", bare), Some(0x1a));
        assert_eq!(read_address("f", bare), Some(0xf));
        assert_eq!(read_address("a00000000", bare), None);
        assert_eq!(read_address("1g", bare), None);
    }
}

#[test]
fn other_literals_are_decimal() {
    for bare in BOTH {
        assert_eq!(read_address("+12", bare), Some(12));
        assert_eq!(read_address("-12", bare), None);
        assert_eq!(read_address("main", bare), None);
        assert_eq!(read_address("", bare), None);
        assert_eq!(read_address(" \t", bare), None);
    }
}

#[test]
fn white_space_around_literals_does_not_count() {
    for bare in BOTH {
        assert_eq!(read_address("  0x20\n", bare), Some(0x20));
        assert_eq!(read_address("0x 20", bare), None);
    }
    assert_eq!(read_address("\u{3000}20 ", BareDigits::Decimal), Some(20));
    assert_eq!(read_address("\u{3000}20 ", BareDigits::Hexadecimal), Some(0x20));
}

#[test]
fn written_addresses_read_back() {
    for address in [0u32, 1, 0xabc, 0x1000_0000, u32::MAX] {
        for bare in BOTH {
            assert_eq!(read_address(&hex_text(address), bare), Some(address));
        }
        let decimal = numeral_text(address as u64, 10);
        assert_eq!(read_address(&decimal, BareDigits::Decimal), Some(address));
        let hexadecimal = numeral_text(address as u64, 16);
        assert_eq!(read_address(&hexadecimal, BareDigits::Hexadecimal), Some(address));
    }
    for address in [0xa, 0xabc, 0x4f_0000, u32::MAX] {
        let hexadecimal = numeral_text(address as u64, 16);
        assert_eq!(read_address(&hexadecimal, BareDigits::Decimal), Some(address));
    }
}

#[test]
fn names_resolve_by_address_then_offset_then_literal() {
    let mut table = SymbolTable::new();
    assert_eq!(table.resolve("10", BareDigits::Hexadecimal), Some(0x10));
    assert_eq!(table.resolve("10", BareDigits::Decimal), Some(10));
    table.rva.insert("10".to_string(), 0x500);
    assert!(table.knows("10", BareDigits::Decimal));
    assert_eq!(table.resolve("10", BareDigits::Decimal), None);
    table.image_base = Some(0x40_0000);
    assert_eq!(table.resolve("10", BareDigits::Decimal), Some(0x40_0500));
    table.va.insert("10".to_string(), 0x77);
    assert_eq!(table.resolve("10", BareDigits::Decimal), Some(0x77));
}

#[test]
fn offsets_wrap_round() {
    let mut table = SymbolTable::new();
    table.image_base = Some(0xffff_fff0);
    table.rva.insert("f".to_string(), 0x20);
    assert_eq!(table.resolve("f", BareDigits::Decimal), Some(0x10));
}

#[test]
fn clearing_keeps_the_image_base() {
    let mut table = SymbolTable::new();
    table.image_base = Some(1);
    table.rva.insert("main".to_string(), 2);
    table.va.insert("f".to_string(), 3);
    table.clear();
    assert_eq!(table.image_base, Some(1));
    assert!(!table.knows("main", BareDigits::Decimal));
    assert_eq!(table.resolve("main", BareDigits::Decimal), None);
    assert_eq!(table.resolve("f", BareDigits::Decimal), Some(0xf));
}

#[test]
fn each_name_is_known_or_not() {
    let mut table = SymbolTable::new();
    table.rva.insert("f".to_string(), 2);
    let names = names_of_functions(&["f", "zoo", "0x10"]);
    assert_eq!(table.knows_each(&names, BareDigits::Decimal), vec![true, false, true]);
}

#[test]
fn a_known_name_without_a_base_does_not_resolve() {
    let mut table = SymbolTable::new();
    table.rva.insert("main".to_string(), 2);
    assert!(table.knows("main", BareDigits::Decimal));
    assert_eq!(table.resolve("main", BareDigits::Decimal), None);
}

#[test]
fn addresses_come_once_in_order() {
    let mut table = SymbolTable::new();
    table.va.insert("f".to_string(), 0x30);
    let names = names_of_functions(&["0x20", "f", "zoo", "48", "0x10", " 32 ", "0x40"]);
    assert_eq!(table.distinct_addresses(&names, BareDigits::Decimal, usize::MAX), vec![0x20, 0x30, 0x10, 0x40]);
    assert_eq!(table.distinct_addresses(&names, BareDigits::Hexadecimal, 4), vec![0x20, 0x30, 0x48, 0x10]);
    assert_eq!(table.distinct_addresses(&names, BareDigits::Decimal, 2), vec![0x20, 0x30]);
}
