use hashcc::hexfmt::{is_hex_digit, is_valid_hex};

#[test]
fn valid_hex_strings() {
    assert!(is_valid_hex("0123456789abcdef"));
    assert!(is_valid_hex("ABCDEF"));
    assert!(is_valid_hex("a"));
}

#[test]
fn invalid_hex_strings() {
    assert!(!is_valid_hex(""));
    assert!(!is_valid_hex("xyz"));
    assert!(!is_valid_hex("12 34"));
    assert!(!is_valid_hex("12g4"));
}

#[test]
fn hex_digit_classification() {
    assert!(is_hex_digit('0'));
    assert!(is_hex_digit('9'));
    assert!(is_hex_digit('a'));
    assert!(is_hex_digit('f'));
    assert!(is_hex_digit('A'));
    assert!(is_hex_digit('F'));
    assert!(!is_hex_digit('g'));
    assert!(!is_hex_digit(' '));
    assert!(!is_hex_digit('/'));
}
