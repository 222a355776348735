use chat_server::text::{push_decimal, push_signed_decimal, str_eq};

fn decimal(n: u64) -> String {
    let mut out = String::new();
    push_decimal(&mut out, n);
    out
}

fn signed(n: i64) -> String {
    let mut out = String::new();
    push_signed_decimal(&mut out, n);
    out
}

#[test]
fn decimal_numerals_have_no_leading_zeros() {
    assert_eq!(decimal(0), "0");
    assert_eq!(decimal(7), "7");
    assert_eq!(decimal(10), "10");
    assert_eq!(decimal(109), "109");
    assert_eq!(decimal(12345), "12345");
    assert_eq!(decimal(u64::MAX), "18446744073709551615");
}

#[test]
fn decimal_is_appended_to_what_is_there() {
    let mut out = String::from("n=");
    push_decimal(&mut out, 42);
    assert_eq!(out, "n=42");
}

#[test]
fn negative_numbers_carry_a_minus_sign() {
    assert_eq!(signed(0), "0");
    assert_eq!(signed(-1), "-1");
    assert_eq!(signed(2147483647), "2147483647");
    assert_eq!(signed(-2147483648), "-2147483648");
    assert_eq!(signed(i64::MAX), "9223372036854775807");
    assert_eq!(signed(i64::MIN), "-9223372036854775808");
}

#[test]
fn texts_are_equal_when_their_characters_are() {
    assert!(str_eq("", ""));
    assert!(str_eq("male", "male"));
    assert!(!str_eq("male", "Male"));
    assert!(!str_eq("male", "male "));
    assert!(str_eq("h\u{e9}", "h\u{e9}"));
}
