use diskbars::text::{
    byte_length, digit_str, push_decimal, push_repeated, push_right_aligned, push_two_places,
};

fn decimal(n: u128) -> String {
    let mut out = String::new();
    push_decimal(&mut out, n);
    out
}

fn two_places(hundredths: u128) -> String {
    let mut out = String::new();
    push_two_places(&mut out, hundredths);
    out
}

#[test]
fn digits_have_their_characters() {
    let all: Vec<&str> = (0u8..10).map(digit_str).collect();
    assert_eq!(all, ["0", "1", "2", "3", "4", "5", "6", "7", "8", "9"]);
}

#[test]
fn numerals_have_no_leading_zeros() {
    assert_eq!(decimal(0), "0");
    assert_eq!(decimal(7), "7");
    assert_eq!(decimal(10), "10");
    assert_eq!(decimal(1009), "1009");
    assert_eq!(decimal(u64::MAX as u128), "18446744073709551615");
    assert_eq!(decimal(u128::MAX), "340282366920938463463374607431768211455");
}

#[test]
fn numerals_are_appended() {
    let mut out = String::from("n=");
    push_decimal(&mut out, 42);
    push_decimal(&mut out, 0);
    assert_eq!(out, "n=420");
}

#[test]
fn hundredths_have_a_point_and_two_digits() {
    assert_eq!(two_places(0), "0.00");
    assert_eq!(two_places(5), "0.05");
    assert_eq!(two_places(50), "0.50");
    assert_eq!(two_places(199), "1.99");
    assert_eq!(two_places(10000), "100.00");
    assert_eq!(two_places(1234567), "12345.67");
}

#[test]
fn pieces_repeat() {
    let mut out = String::from(">");
    push_repeated(&mut out, "ab", 3);
    push_repeated(&mut out, "x", 0);
    push_repeated(&mut out, "", 5);
    push_repeated(&mut out, "█", 2);
    assert_eq!(out, ">ababab██");
}

#[test]
fn short_texts_are_aligned_to_the_right() {
    let mut out = String::from("|");
    push_right_aligned(&mut out, "7", 3);
    push_right_aligned(&mut out, "1234", 3);
    push_right_aligned(&mut out, "é", 2);
    push_right_aligned(&mut out, "", 1);
    assert_eq!(out, "|  71234 é ");
}

#[test]
fn bytes_are_counted_not_characters() {
    assert_eq!(byte_length(""), 0);
    assert_eq!(byte_length("/home"), 5);
    assert_eq!(byte_length("é"), 2);
    assert_eq!(byte_length("├─"), 6);
    assert_eq!(byte_length("𝄞"), 4);
}
