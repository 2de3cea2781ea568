//! Tests of the decimal rendering used in error messages.

use game_of_life::decimal::usize_to_string;

#[test]
fn renders_single_digits() {
    assert_eq!(usize_to_string(0), "0");
    assert_eq!(usize_to_string(7), "7");
    assert_eq!(usize_to_string(9), "9");
}

#[test]
fn renders_multi_digit_numbers() {
    assert_eq!(usize_to_string(10), "10");
    assert_eq!(usize_to_string(17), "17");
    assert_eq!(usize_to_string(20), "20");
    assert_eq!(usize_to_string(123), "123");
    assert_eq!(usize_to_string(90210), "90210");
}
