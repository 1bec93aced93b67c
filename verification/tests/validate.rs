use clrblk::validate::is_valid_hex_color;

#[test]
fn six_hex_digits_are_accepted() {
    assert!(is_valid_hex_color("a1b2c3"));
    assert!(is_valid_hex_color("123456"));
    assert!(is_valid_hex_color("FFFFFF"));
    assert!(is_valid_hex_color("DeadBe"));
}

#[test]
fn leading_hash_is_accepted() {
    assert!(is_valid_hex_color("#A1b2C3"));
    assert!(is_valid_hex_color("#000000"));
    assert!(is_valid_hex_color("#ffffff"));
}

#[test]
fn wrong_lengths_are_rejected() {
    assert!(!is_valid_hex_color(""));
    assert!(!is_valid_hex_color("#"));
    assert!(!is_valid_hex_color("#12345"));
    assert!(!is_valid_hex_color("12345"));
    assert!(!is_valid_hex_color("1234567"));
    assert!(!is_valid_hex_color("#1234567"));
}

#[test]
fn non_hex_characters_are_rejected() {
    assert!(!is_valid_hex_color("12345g"));
    assert!(!is_valid_hex_color("#GGGGGG"));
    assert!(!is_valid_hex_color("##12345"));
    assert!(!is_valid_hex_color("12 456"));
    assert!(!is_valid_hex_color("0x1234"));
}
