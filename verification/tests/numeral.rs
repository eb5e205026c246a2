use debug_et_diagnostics::color::numeral::{binary_digits, decimal, hex_digits, parse_unsigned};

#[test]
fn parse_unsigned_reads_decimal() {
    assert_eq!(parse_unsigned(b"0", 10, 255), Some(0));
    assert_eq!(parse_unsigned(b"65", 10, 255), Some(65));
    assert_eq!(parse_unsigned(b"255", 10, 255), Some(255));
    assert_eq!(parse_unsigned(b"+255", 10, 255), Some(255));
    assert_eq!(parse_unsigned(b"000000000000000000000255", 10, 255), Some(255));
    assert_eq!(parse_unsigned(b"18446744073709551615", 10, u64::MAX), Some(u64::MAX));
}

#[test]
fn parse_unsigned_reads_hexadecimal_in_either_case() {
    assert_eq!(parse_unsigned(b"ff", 16, 255), Some(255));
    assert_eq!(parse_unsigned(b"Ff", 16, 255), Some(255));
    assert_eq!(parse_unsigned(b"10", 16, 255), Some(16));
    assert_eq!(parse_unsigned(b"ffff", 16, 65535), Some(65535));
    assert_eq!(parse_unsigned(b"FFFFFFFFFFFFFFFF", 16, u64::MAX), Some(u64::MAX));
}

#[test]
fn parse_unsigned_reads_other_radices() {
    assert_eq!(parse_unsigned(b"101", 2, 255), Some(5));
    assert_eq!(parse_unsigned(b"zz", 36, u64::MAX), Some(35 * 36 + 35));
    assert_eq!(parse_unsigned(b"2", 2, 255), None);
}

#[test]
fn parse_unsigned_refuses_what_is_too_large() {
    assert_eq!(parse_unsigned(b"256", 10, 255), None);
    assert_eq!(parse_unsigned(b"100", 16, 255), None);
    assert_eq!(parse_unsigned(b"18446744073709551616", 10, u64::MAX), None);
    assert_eq!(parse_unsigned(b"10000000000000000", 16, u64::MAX), None);
    assert_eq!(parse_unsigned(b"99999999999999999999999999999999999999999", 10, u64::MAX), None);
    assert_eq!(parse_unsigned(b"1", 10, 0), None);
    assert_eq!(parse_unsigned(b"0", 10, 0), Some(0));
}

#[test]
fn parse_unsigned_refuses_what_is_no_number() {
    assert_eq!(parse_unsigned(b"", 10, 255), None);
    assert_eq!(parse_unsigned(b"+", 10, 255), None);
    assert_eq!(parse_unsigned(b"-", 10, 255), None);
    assert_eq!(parse_unsigned(b"-1", 10, 255), None);
    assert_eq!(parse_unsigned(b"++1", 10, 255), None);
    assert_eq!(parse_unsigned(b"1+", 10, 255), None);
    assert_eq!(parse_unsigned(b"12a", 10, 255), None);
    assert_eq!(parse_unsigned(b"a", 10, 255), None);
    assert_eq!(parse_unsigned(b"g", 16, 255), None);
    assert_eq!(parse_unsigned(b"0x1", 16, 255), None);
    assert_eq!(parse_unsigned(b" 1", 10, 255), None);
    assert_eq!(parse_unsigned(b"1 ", 10, 255), None);
    assert_eq!(parse_unsigned(b"1_0", 10, 255), None);
    assert_eq!(parse_unsigned(&[0xc3, 0xa9], 16, 255), None);
}

#[test]
fn parse_unsigned_agrees_with_the_standard_library() {
    let texts = ["", "+", "0", "7", "+7", "-7", "255", "256", "ff", "FF", "fff", "0xff", "1e", "z", " 1"];
    for text in texts {
        assert_eq!(
            parse_unsigned(text.as_bytes(), 10, 255),
            u8::from_str_radix(text, 10).ok().map(u64::from)
        );
        assert_eq!(
            parse_unsigned(text.as_bytes(), 16, 255),
            u8::from_str_radix(text, 16).ok().map(u64::from)
        );
        assert_eq!(
            parse_unsigned(text.as_bytes(), 16, 65535),
            u16::from_str_radix(text, 16).ok().map(u64::from)
        );
    }
}

#[test]
fn decimal_writes_without_leading_zeros() {
    assert_eq!(decimal(0), "0");
    assert_eq!(decimal(5), "5");
    assert_eq!(decimal(10), "10");
    assert_eq!(decimal(231), "231");
    assert_eq!(decimal(255), "255");
    assert_eq!(decimal(1000), "1000");
    assert_eq!(decimal(u64::MAX), "18446744073709551615");
    for value in 0..=255u64 {
        assert_eq!(decimal(value), value.to_string());
    }
}

#[test]
fn hex_digits_writes_two_lower_case_digits() {
    assert_eq!(hex_digits(0), "00");
    assert_eq!(hex_digits(10), "0a");
    assert_eq!(hex_digits(0x41), "41");
    assert_eq!(hex_digits(255), "ff");
    for byte in 0..=255u8 {
        assert_eq!(hex_digits(byte), format!("{byte:02x}"));
    }
}

#[test]
fn binary_digits_writes_eight_digits() {
    assert_eq!(binary_digits(0), "00000000");
    assert_eq!(binary_digits(1), "00000001");
    assert_eq!(binary_digits(0x41), "01000001");
    assert_eq!(binary_digits(128), "10000000");
    assert_eq!(binary_digits(255), "11111111");
    for byte in 0..=255u8 {
        assert_eq!(binary_digits(byte), format!("{byte:08b}"));
    }
}
