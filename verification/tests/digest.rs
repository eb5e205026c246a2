use debug_et_diagnostics::color::digest::numeric_literal;
use debug_et_diagnostics::{
    from_byte, from_bytes, from_debug, from_display, merge_rgb, non_zero_be_bytes, rgb_from_byte,
    rgb_from_bytes, rgb_from_display, wrap,
};

#[test]
fn no_bytes_digest_to_zero() {
    assert_eq!(from_bytes(&[]), 0);
    assert_eq!(rgb_from_bytes(&[]), [0, 0, 0]);
}

#[test]
fn digest_is_repeatable() {
    let inputs: [&[u8]; 4] = [b"", b"a", b"text", &[0, 255, 16, 231, 7]];
    for bytes in inputs {
        assert_eq!(from_bytes(bytes), from_bytes(bytes));
        assert_eq!(rgb_from_bytes(bytes), rgb_from_bytes(bytes));
    }
}

#[test]
fn digest_of_two_bytes_ignores_their_order() {
    for a in 0..=255u8 {
        for b in [0u8, 1, 7, 16, 67, 128, 231, 232, 255] {
            assert_eq!(from_bytes(&[a, b]), from_bytes(&[b, a]));
        }
    }
}

#[test]
fn digest_ignores_the_order_of_longer_sequences() {
    assert_eq!(from_bytes(b"text"), from_bytes(b"txet"));
    assert_eq!(from_bytes(b"abcdef"), from_bytes(b"fedcba"));
    assert_eq!(rgb_from_bytes(b"abcdef"), rgb_from_bytes(b"defabc"));
}

#[test]
fn digest_skips_zero_bytes() {
    assert_eq!(from_bytes(&[0]), 0);
    assert_eq!(from_bytes(&[65, 0, 66]), from_bytes(&[65, 66]));
    assert_eq!(from_bytes(&[0, 0, 65, 0]), from_bytes(&[65]));
}

#[test]
fn digest_of_one_byte_folds_its_colour() {
    // 65 is the cell 49 of the cube: (95, 95, 95 ^ 40) -> (95, 135, 95)
    assert_eq!(rgb_from_bytes(&[65]), [95, 135, 95]);
    assert_eq!(from_bytes(&[65]), 95 ^ 135 ^ 95);
    assert_eq!(from_bytes(&[65]), 135);
    assert_eq!(from_bytes(&[255]), 238);
    assert_eq!(from_bytes(&[1]), 205);
}

#[test]
fn digest_of_a_word() {
    // the two `t` cancel; 0x65 is (135, 135, 95), 0x78 is (135, 255, 135)
    assert_eq!(rgb_from_bytes(b"text"), [0, 120, 216]);
    assert_eq!(from_bytes(b"text"), 160);
}

#[test]
fn merge_rgb_is_exclusive_or_by_channel() {
    assert_eq!(merge_rgb(&[], false), [0, 0, 0]);
    assert_eq!(merge_rgb(&[], true), [0, 0, 0]);
    assert_eq!(merge_rgb(&[[1, 2, 3]], false), [1, 2, 3]);
    assert_eq!(merge_rgb(&[[1, 2, 3], [4, 5, 6]], false), [5, 7, 5]);
    assert_eq!(merge_rgb(&[[1, 2, 3], [1, 2, 3]], false), [0, 0, 0]);
}

#[test]
fn merge_rgb_with_extra_adds_the_colour_of_every_channel() {
    assert_eq!(merge_rgb(&[[1, 2, 3], [4, 5, 6]], true), [200, 202, 235]);
    assert_eq!(merge_rgb(&[[16, 231, 67]], true), [176, 159, 19]);
    let plain = merge_rgb(&[[16, 231, 67]], false);
    let extra = rgb_from_bytes(&[16, 231, 67]);
    assert_eq!(
        merge_rgb(&[[16, 231, 67]], true),
        [plain[0] ^ extra[0], plain[1] ^ extra[1], plain[2] ^ extra[2]]
    );
}

#[test]
fn rgb_from_bytes_merges_the_palette_colours() {
    let rgbs = [rgb_from_byte(10), rgb_from_byte(200), rgb_from_byte(99)];
    assert_eq!(rgb_from_bytes(&[10, 200, 99]), merge_rgb(&rgbs, false));
}

#[test]
fn from_byte_is_the_identity() {
    for byte in 0..=255u8 {
        assert_eq!(from_byte(byte), byte);
    }
}

#[test]
fn wrap_keeps_indices_and_digests_larger_numbers() {
    assert_eq!(wrap(0), 0);
    assert_eq!(wrap(65), 65);
    assert_eq!(wrap(255), 255);
    assert_eq!(wrap(256), 205);
    assert_eq!(wrap(256), from_bytes(&[1, 0]));
    assert_eq!(wrap(0x0102), 0);
    assert_eq!(wrap(0x0102), from_bytes(&[1, 2]));
    assert_eq!(wrap(1000), 8);
    assert_eq!(wrap(65536), 205);
    assert_eq!(wrap(usize::MAX), from_bytes(&usize::MAX.to_ne_bytes()));
    assert_eq!(wrap(0x12345678), from_bytes(&0x12345678usize.to_ne_bytes()));
}

#[test]
fn non_zero_be_bytes_drops_leading_zeros() {
    assert_eq!(non_zero_be_bytes(0), vec![0]);
    assert_eq!(non_zero_be_bytes(1), vec![1]);
    assert_eq!(non_zero_be_bytes(255), vec![255]);
    assert_eq!(non_zero_be_bytes(256), vec![1, 0]);
    assert_eq!(non_zero_be_bytes(0x010203), vec![1, 2, 3]);
    assert_eq!(non_zero_be_bytes(0x01000000), vec![1, 0, 0, 0]);
    assert_eq!(non_zero_be_bytes(u32::MAX as usize), vec![255, 255, 255, 255]);
}

#[test]
fn numeric_literal_reads_decimal_bytes_first() {
    assert_eq!(numeric_literal(b"65"), Some(65));
    assert_eq!(numeric_literal(b"0"), Some(0));
    assert_eq!(numeric_literal(b"255"), Some(255));
    assert_eq!(numeric_literal(b"+65"), Some(65));
    assert_eq!(numeric_literal(b"007"), Some(7));
}

#[test]
fn numeric_literal_reads_hexadecimal_next() {
    assert_eq!(numeric_literal(b"256"), Some(0x256));
    assert_eq!(numeric_literal(b"ff"), Some(255));
    assert_eq!(numeric_literal(b"FF"), Some(255));
    assert_eq!(numeric_literal(b"0xff"), Some(255));
    assert_eq!(numeric_literal(b"0XfF"), Some(255));
    assert_eq!(numeric_literal(b"0x+ff"), Some(255));
    assert_eq!(numeric_literal(b"deadbeef"), Some(0xdeadbeef));
    assert_eq!(numeric_literal(b"0xdeadbeef"), Some(0xdeadbeef));
    assert_eq!(numeric_literal(b"ffffffffffffffff"), Some(u64::MAX));
    assert_eq!(numeric_literal(b"0x0000000000000000000001"), Some(1));
}

#[test]
fn numeric_literal_refuses_other_text() {
    assert_eq!(numeric_literal(b""), None);
    assert_eq!(numeric_literal(b"+"), None);
    assert_eq!(numeric_literal(b"0x"), None);
    assert_eq!(numeric_literal(b"-1"), None);
    assert_eq!(numeric_literal(b"text"), None);
    assert_eq!(numeric_literal(b"+0xff"), None);
    assert_eq!(numeric_literal(b"0x0xff"), None);
    assert_eq!(numeric_literal(b" 65"), None);
    assert_eq!(numeric_literal(b"6_5"), None);
    assert_eq!(numeric_literal(b"10000000000000000"), None);
    assert_eq!(numeric_literal("é".as_bytes()), None);
}

#[test]
fn from_display_takes_a_decimal_byte_before_the_text() {
    assert_eq!(from_display("65"), from_display(&65u8.to_string()));
    assert_eq!(from_display("65"), from_bytes(&[65]));
    assert_eq!(from_display("65"), 135);
    assert_ne!(from_display("65"), from_bytes(b"65"));
    assert_eq!(from_display("+65"), 135);
}

#[test]
fn from_display_takes_hexadecimal_numbers() {
    assert_eq!(from_display("ff"), from_bytes(&[255]));
    assert_eq!(from_display("ff"), 238);
    assert_eq!(from_display("0xff"), 238);
    assert_eq!(from_display("0XFF"), 238);
    assert_eq!(from_display("0x+ff"), 238);
    assert_eq!(from_display("256"), from_bytes(&0x256u16.to_ne_bytes()));
    assert_eq!(from_display("256"), 186);
    assert_eq!(from_display("0x100"), from_bytes(&0x100u16.to_ne_bytes()));
    assert_eq!(from_display("0x100"), 205);
    assert_eq!(from_display("deadbeef"), from_bytes(&0xdeadbeefu32.to_ne_bytes()));
    assert_eq!(from_display("deadbeef"), 198);
    assert_eq!(from_display("0xdeadbeef"), 198);
    assert_eq!(from_display("ffffffffffffffff"), from_bytes(&u64::MAX.to_ne_bytes()));
    assert_eq!(from_display("ffffffffffffffff"), 0);
    assert_eq!(from_display("123456789ab"), from_bytes(&0x123456789abu64.to_ne_bytes()));
}

#[test]
fn from_display_falls_back_to_the_text() {
    assert_eq!(from_display(""), 0);
    assert_eq!(from_display("text"), from_bytes(b"text"));
    assert_eq!(from_display("text"), 160);
    assert_eq!(from_display("-1"), from_bytes(b"-1"));
    assert_eq!(from_display("-1"), 120);
    assert_eq!(from_display("0x"), from_bytes(b"0x"));
    assert_eq!(from_display("0x"), 135);
    assert_eq!(from_display("10000000000000000"), from_bytes(b"10000000000000000"));
    assert_eq!(from_display("10000000000000000"), 80);
    assert_eq!(from_display("héllo"), from_bytes("héllo".as_bytes()));
}

#[test]
fn from_debug_digests_the_rendering() {
    assert_eq!(from_debug("\"a\""), from_bytes(b"\"a\""));
    assert_eq!(from_debug("\"a\""), 119);
    // a rendering that writes a number is still digested as text
    assert_eq!(from_debug("65"), from_bytes(b"65"));
    assert_eq!(from_debug(""), 0);
}

#[test]
fn rgb_from_display_is_the_colour_of_the_text() {
    assert_eq!(rgb_from_display("text"), [0, 120, 216]);
    assert_eq!(rgb_from_display("65"), rgb_from_bytes(b"65"));
    assert_eq!(rgb_from_display(""), [0, 0, 0]);
}

// The same reading the long way round: a byte in decimal, then a number in
// hexadecimal at each width in turn, with and without `0x` in front.
fn by_widths(string: &str) -> u8 {
    let prefixed = string.to_lowercase().starts_with("0x");
    let stripped = string.to_lowercase().replacen("0x", "", 1);
    from_bytes(
        &u8::from_str_radix(string, 10)
            .ok()
            .or_else(|| u8::from_str_radix(string, 16).ok())
            .or_else(|| {
                if prefixed {
                    u8::from_str_radix(&stripped, 16).ok()
                } else {
                    None
                }
            })
            .map(|byte| vec![byte])
            .or_else(|| u16::from_str_radix(string, 16).map(|u| u.to_ne_bytes().to_vec()).ok())
            .or_else(|| {
                if prefixed {
                    u16::from_str_radix(&stripped, 16).map(|u| u.to_ne_bytes().to_vec()).ok()
                } else {
                    None
                }
            })
            .or_else(|| u32::from_str_radix(string, 16).map(|u| u.to_ne_bytes().to_vec()).ok())
            .or_else(|| {
                if prefixed {
                    u32::from_str_radix(&stripped, 16).map(|u| u.to_ne_bytes().to_vec()).ok()
                } else {
                    None
                }
            })
            .or_else(|| u64::from_str_radix(string, 16).map(|u| u.to_ne_bytes().to_vec()).ok())
            .or_else(|| {
                if prefixed {
                    u64::from_str_radix(&stripped, 16).map(|u| u.to_ne_bytes().to_vec()).ok()
                } else {
                    None
                }
            })
            .unwrap_or_else(|| string.as_bytes().to_vec()),
    )
}

#[test]
fn from_display_agrees_with_reading_width_by_width() {
    let texts = [
        "", "0", "7", "65", "255", "256", "999", "+65", "++65", "-65", "+", "-", "ff", "FF", "fF",
        "0xff", "0Xff", "0XFF", "0x", "0X", "0x+1", "0x-1", "+0x1", "0x0x1", "0xx1", "100", "0x100",
        "ffff", "10000", "0x10000", "ffffffff", "100000000", "0x100000000", "ffffffffffffffff",
        "0xffffffffffffffff", "10000000000000000", "0x10000000000000000",
        "000000000000000000000000ff", "0x000000000000000000000000ff", "text", "deadbeef",
        "0xdeadbeef", "dead beef", " 1", "1 ", "1_0", "0b101", "0o17", "1e3", "a", "g", "0xg",
        "héllo", "0x\u{212a}", "0\u{212a}", "\u{212a}", "\u{130}", "\u{ff26}\u{ff26}",
        "0x\u{ff26}\u{ff26}", "０x1", "0ｘ1", "日本", "\0", "0x\0",
    ];
    for text in texts {
        assert_eq!(from_display(text), by_widths(text), "for {text:?}");
    }
}

#[test]
fn from_display_agrees_with_reading_width_by_width_for_numbers() {
    for value in (0..=70000u64).chain([u32::MAX as u64, u32::MAX as u64 + 1, u64::MAX - 1, u64::MAX]) {
        let decimal = format!("{value}");
        let plain = format!("{value:x}");
        let prefixed = format!("0x{value:x}");
        let upper = format!("0X{value:X}");
        assert_eq!(from_display(&decimal), by_widths(&decimal), "for {decimal:?}");
        assert_eq!(from_display(&plain), by_widths(&plain), "for {plain:?}");
        assert_eq!(from_display(&prefixed), by_widths(&prefixed), "for {prefixed:?}");
        assert_eq!(from_display(&upper), by_widths(&upper), "for {upper:?}");
    }
}

#[test]
fn every_byte_in_decimal_digests_as_the_byte() {
    for byte in 0..=255u8 {
        assert_eq!(from_display(&byte.to_string()), from_bytes(&[byte]));
    }
}
