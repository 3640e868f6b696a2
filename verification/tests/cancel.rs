use chatscript::cancel::{button_id, cancel_target, parse_id};
use chatscript::decimal::{decimal, parse_decimal};

#[test]
fn decimal_writes_numbers_without_leading_zeros() {
    assert_eq!(decimal(0), "0");
    assert_eq!(decimal(7), "7");
    assert_eq!(decimal(10), "10");
    assert_eq!(decimal(1234567890), "1234567890");
    assert_eq!(decimal(u64::MAX), "18446744073709551615");
}

#[test]
fn parse_decimal_reads_a_range_of_digits() {
    let chars: Vec<char> = "ab0042cd".chars().collect();
    assert_eq!(parse_decimal(&chars, 2, 6), Some(42));
    assert_eq!(parse_decimal(&chars, 2, 2), None);
    assert_eq!(parse_decimal(&chars, 1, 6), None);
    assert_eq!(parse_decimal(&chars, 5, 7), None);
}

#[test]
fn parse_decimal_refuses_what_does_not_fit() {
    let max: Vec<char> = "18446744073709551615".chars().collect();
    assert_eq!(parse_decimal(&max, 0, max.len()), Some(u64::MAX));
    let over: Vec<char> = "18446744073709551616".chars().collect();
    assert_eq!(parse_decimal(&over, 0, over.len()), None);
    let long: Vec<char> = "999999999999999999999999".chars().collect();
    assert_eq!(parse_decimal(&long, 0, long.len()), None);
    let signed: Vec<char> = "+5".chars().collect();
    assert_eq!(parse_decimal(&signed, 0, signed.len()), None);
}

#[test]
fn button_id_names_anchor_and_owner() {
    assert_eq!(button_id(123, 456), "cancel#123#456");
    assert_eq!(button_id(0, u64::MAX), "cancel#0#18446744073709551615");
}

#[test]
fn button_id_reads_back() {
    for (anchor, owner) in [(1u64, 2u64), (0, 0), (u64::MAX, 17), (1234567890123, 9876543210)] {
        assert_eq!(parse_id(&button_id(anchor, owner)), Some((anchor, owner)));
    }
}

#[test]
fn other_identifiers_are_not_cancel_buttons() {
    assert_eq!(parse_id(""), None);
    assert_eq!(parse_id("cancel"), None);
    assert_eq!(parse_id("cancel#"), None);
    assert_eq!(parse_id("cancel#12"), None);
    assert_eq!(parse_id("cancel#12#"), None);
    assert_eq!(parse_id("cancel##12"), None);
    assert_eq!(parse_id("cancel#12#34#56"), None);
    assert_eq!(parse_id("cancel#12#x4"), None);
    assert_eq!(parse_id("Cancel#12#34"), None);
    assert_eq!(parse_id("retry#12#34"), None);
    assert_eq!(parse_id("cancel#18446744073709551616#1"), None);
    assert_eq!(parse_id("cancel#007#08"), Some((7, 8)));
}

#[test]
fn only_the_owner_cancels() {
    let id = button_id(77, 42);
    assert_eq!(cancel_target(&id, 42), Some(77));
    assert_eq!(cancel_target(&id, 43), None);
    assert_eq!(cancel_target("something else", 42), None);
}
