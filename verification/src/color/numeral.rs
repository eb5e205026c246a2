//! Numbers as text: reading unsigned numbers in a radix, and writing them
//! in decimal, hexadecimal and binary.

use vstd::prelude::*;
use vstd::string::StringExecFns;
use vstd::utf8::{encode_utf8, is_ascii_chars, is_ascii_chars_encode_utf8};

verus! {

/// What a byte is worth as a digit: `0`-`9`, then the letters of either case
/// from 10 on. A byte that is no digit in any radix is worth 36.
pub open spec fn digit_value(byte: u8) -> int {
    if 48 <= byte <= 57 {
        byte - 48
    } else if 97 <= byte <= 122 {
        byte - 87
    } else if 65 <= byte <= 90 {
        byte - 55
    } else {
        36
    }
}

/// Every byte is a digit of the radix.
pub open spec fn all_digits(digits: Seq<u8>, radix: int) -> bool {
    forall|i: int| 0 <= i < digits.len() ==> digit_value(#[trigger] digits[i]) < radix
}

/// The number that a sequence of digits writes, most significant first.
pub open spec fn digits_value(digits: Seq<u8>, radix: int) -> int
    decreases digits.len(),
{
    if digits.len() == 0 {
        0
    } else {
        digits_value(digits.drop_last(), radix) * radix + digit_value(digits.last())
    }
}

/// The text without the one `+` that may stand in front of the digits.
pub open spec fn unsigned_body(text: Seq<u8>) -> Seq<u8> {
    if text.len() > 0 && text[0] == 43 {
        text.skip(1)
    } else {
        text
    }
}

/// The number that the text writes in the radix: an optional `+`, then one
/// digit or more and nothing else, worth no more than `max`.
pub open spec fn parsed_unsigned(text: Seq<u8>, radix: int, max: u64) -> Option<u64> {
    let body = unsigned_body(text);
    if body.len() > 0 && all_digits(body, radix) && digits_value(body, radix) <= max {
        Some(digits_value(body, radix) as u64)
    } else {
        None
    }
}

/// The character that writes a digit below sixteen, letters in lower case.
pub open spec fn digit_char(digit: int) -> char {
    if digit == 0 {
        '0'
    } else if digit == 1 {
        '1'
    } else if digit == 2 {
        '2'
    } else if digit == 3 {
        '3'
    } else if digit == 4 {
        '4'
    } else if digit == 5 {
        '5'
    } else if digit == 6 {
        '6'
    } else if digit == 7 {
        '7'
    } else if digit == 8 {
        '8'
    } else if digit == 9 {
        '9'
    } else if digit == 10 {
        'a'
    } else if digit == 11 {
        'b'
    } else if digit == 12 {
        'c'
    } else if digit == 13 {
        'd'
    } else if digit == 14 {
        'e'
    } else {
        'f'
    }
}

/// A number in decimal, without leading zeros.
pub open spec fn decimal_text(value: nat) -> Seq<char>
    decreases value,
{
    if value < 10 {
        seq![digit_char(value as int)]
    } else {
        decimal_text(value / 10).push(digit_char((value % 10) as int))
    }
}

/// A byte in two hexadecimal digits, letters in lower case.
pub open spec fn hex_octet(byte: u8) -> Seq<char> {
    seq![digit_char(byte as int / 16), digit_char(byte as int % 16)]
}

/// A byte in eight binary digits.
pub open spec fn binary_octet(byte: u8) -> Seq<char> {
    seq![
        digit_char(byte as int / 128 % 2),
        digit_char(byte as int / 64 % 2),
        digit_char(byte as int / 32 % 2),
        digit_char(byte as int / 16 % 2),
        digit_char(byte as int / 8 % 2),
        digit_char(byte as int / 4 % 2),
        digit_char(byte as int / 2 % 2),
        digit_char(byte as int % 2),
    ]
}

/// A sequence of digits is worth at least as much as any of its prefixes.
pub proof fn lemma_digits_value_grows(digits: Seq<u8>, radix: int, k: int)
    requires
        1 <= radix,
        0 <= k <= digits.len(),
    ensures
        0 <= digits_value(digits.take(k), radix) <= digits_value(digits, radix),
    decreases digits.len(),
{
    if digits.len() == 0 {
        assert(digits.take(k) =~= digits);
    } else if k == digits.len() {
        assert(digits.take(k) =~= digits);
        lemma_digits_value_grows(digits.drop_last(), radix, k - 1);
        let shorter = digits_value(digits.drop_last(), radix);
        assert(digits.drop_last().take(k - 1) =~= digits.drop_last());
        assert(shorter * radix >= 0) by (nonlinear_arith)
            requires
                shorter >= 0,
                radix >= 1,
        ;
    } else {
        lemma_digits_value_grows(digits.drop_last(), radix, k);
        assert(digits.drop_last().take(k) =~= digits.take(k));
        let shorter = digits_value(digits.drop_last(), radix);
        assert(shorter * radix >= shorter) by (nonlinear_arith)
            requires
                shorter >= 0,
                radix >= 1,
        ;
    }
}

/// The byte of a digit's character is worth the digit.
pub proof fn lemma_digit_char_value(digit: int)
    requires
        0 <= digit < 16,
    ensures
        '0' <= digit_char(digit) <= 'f',
        digit_value(digit_char(digit) as u8) == digit,
        digit_char(digit) as u8 != 43,
{
}

/// A number in decimal is digits only, and at least one.
pub proof fn lemma_decimal_text_digits(value: nat)
    ensures
        decimal_text(value).len() > 0,
        forall|i: int|
            0 <= i < decimal_text(value).len() ==> '0' <= #[trigger] decimal_text(value)[i]
                <= '9',
        is_ascii_chars(decimal_text(value)),
    decreases value,
{
    if value >= 10 {
        lemma_decimal_text_digits(value / 10);
    }
}

/// The bytes of a number in decimal: no sign, digits only, worth the number.
pub proof fn lemma_decimal_bytes(value: nat)
    ensures
        encode_utf8(decimal_text(value)).len() == decimal_text(value).len(),
        encode_utf8(decimal_text(value)).len() > 0,
        encode_utf8(decimal_text(value))[0] != 43,
        all_digits(encode_utf8(decimal_text(value)), 10),
        digits_value(encode_utf8(decimal_text(value)), 10) == value,
    decreases value,
{
    let text = decimal_text(value);
    let bytes = encode_utf8(text);
    lemma_decimal_text_digits(value);
    is_ascii_chars_encode_utf8(text);
    assert forall|i: int| 0 <= i < bytes.len() implies 48 <= #[trigger] bytes[i] <= 57 by {
        assert('0' <= text[i] <= '9');
        assert(bytes[i] == text[i] as u8);
    }
    if value < 10 {
        lemma_digit_char_value(value as int);
        assert(bytes[0] == text[0] as u8);
        assert(bytes.drop_last() =~= Seq::<u8>::empty());
        assert(digits_value(bytes.drop_last(), 10) == 0);
    } else {
        let shorter = decimal_text(value / 10);
        lemma_decimal_bytes(value / 10);
        lemma_decimal_text_digits(value / 10);
        is_ascii_chars_encode_utf8(shorter);
        lemma_digit_char_value((value % 10) as int);
        assert(bytes.drop_last() =~= encode_utf8(shorter)) by {
            assert forall|i: int| 0 <= i < shorter.len() implies bytes[i] == encode_utf8(
                shorter,
            )[i] by {
                assert(text[i] == shorter[i]);
                assert(bytes[i] == text[i] as u8);
                assert(encode_utf8(shorter)[i] == shorter[i] as u8);
            }
        }
        assert(bytes.last() == text.last() as u8);
    }
}

/// What [`decimal`] writes, [`parse_unsigned`] reads back: the bytes of a
/// number in decimal are digits of the radix 10 that are worth the number.
pub proof fn lemma_decimal_reads_back(value: nat, max: u64)
    requires
        value <= max,
    ensures
        parsed_unsigned(encode_utf8(decimal_text(value)), 10, max) == Some(value as u64),
{
    lemma_decimal_bytes(value);
}

/// What [`hex_digits`] writes, [`parse_unsigned`] reads back as the byte.
pub proof fn lemma_hex_octet_reads_back(byte: u8)
    ensures
        parsed_unsigned(encode_utf8(hex_octet(byte)), 16, 255) == Some(byte as u64),
{
    let text = hex_octet(byte);
    let bytes = encode_utf8(text);
    lemma_digit_char_value(byte as int / 16);
    lemma_digit_char_value(byte as int % 16);
    assert(is_ascii_chars(text));
    is_ascii_chars_encode_utf8(text);
    assert(bytes[0] == text[0] as u8);
    assert(bytes[1] == text[1] as u8);
    assert(bytes.drop_last() =~= seq![bytes[0]]);
    assert(seq![bytes[0]].drop_last() =~= Seq::<u8>::empty());
    reveal_with_fuel(digits_value, 3);
}

fn digit_of(byte: u8) -> (value: u8)
    ensures
        value == digit_value(byte),
{
    if 48 <= byte && byte <= 57 {
        byte - 48
    } else if 97 <= byte && byte <= 122 {
        byte - 87
    } else if 65 <= byte && byte <= 90 {
        byte - 55
    } else {
        36
    }
}

/// Reads an unsigned number in the given radix: `Some` of its value where
/// the text is an optional `+` and then digits of the radix only, at least
/// one, and the value is no more than `max`; `None` for any other text.
pub fn parse_unsigned(text: &[u8], radix: u8, max: u64) -> (parsed: Option<u64>)
    requires
        2 <= radix <= 36,
    ensures
        parsed == parsed_unsigned(text@, radix as int, max),
{
    let start: usize = if text.len() > 0 && text[0] == 43 {
        1
    } else {
        0
    };
    let ghost body = unsigned_body(text@);
    assert(body =~= text@.skip(start as int));
    if start == text.len() {
        return None;
    }
    let mut value: u64 = 0;
    let mut i: usize = start;
    while i < text.len()
        invariant
            start <= i <= text.len(),
            2 <= radix <= 36,
            body == text@.skip(start as int),
            body == unsigned_body(text@),
            all_digits(body.take(i - start), radix as int),
            value == digits_value(body.take(i - start), radix as int),
            value <= max,
        decreases text.len() - i,
    {
        let digit = digit_of(text[i]);
        let ghost k = i - start;
        assert(body[k] == text@[i as int]);
        if digit >= radix {
            assert(!all_digits(body, radix as int));
            return None;
        }
        assert(value * radix <= u64::MAX * 36) by (nonlinear_arith)
            requires
                value <= u64::MAX,
                radix <= 36,
        ;
        let next: u128 = value as u128 * radix as u128 + digit as u128;
        proof {
            assert(body.take(k + 1).drop_last() =~= body.take(k));
            assert(body.take(k + 1).last() == body[k]);
            assert(next == digits_value(body.take(k + 1), radix as int));
        }
        if next > max as u128 {
            proof {
                lemma_digits_value_grows(body, radix as int, k + 1);
            }
            return None;
        }
        assert forall|j: int| 0 <= j < k + 1 implies digit_value(#[trigger] body.take(k + 1)[j])
            < radix by {
            if j < k {
                assert(body.take(k + 1)[j] == body.take(k)[j]);
            }
        }
        value = next as u64;
        i += 1;
    }
    assert(body.take(i - start) =~= body);
    Some(value)
}

fn digit_text(digit: u8) -> (text: &'static str)
    requires
        digit < 16,
    ensures
        text@ == seq![digit_char(digit as int)],
{
    proof {
        reveal_strlit("0");
        reveal_strlit("1");
        reveal_strlit("2");
        reveal_strlit("3");
        reveal_strlit("4");
        reveal_strlit("5");
        reveal_strlit("6");
        reveal_strlit("7");
        reveal_strlit("8");
        reveal_strlit("9");
        reveal_strlit("a");
        reveal_strlit("b");
        reveal_strlit("c");
        reveal_strlit("d");
        reveal_strlit("e");
        reveal_strlit("f");
    }
    let text = match digit {
        0 => "0",
        1 => "1",
        2 => "2",
        3 => "3",
        4 => "4",
        5 => "5",
        6 => "6",
        7 => "7",
        8 => "8",
        9 => "9",
        10 => "a",
        11 => "b",
        12 => "c",
        13 => "d",
        14 => "e",
        _ => "f",
    };
    assert(text@ =~= seq![digit_char(digit as int)]);
    text
}

/// Writes a number in decimal.
pub fn decimal(value: u64) -> (text: String)
    ensures
        text@ == decimal_text(value as nat),
    decreases value,
{
    if value < 10 {
        String::from_str(digit_text(value as u8))
    } else {
        let mut text = decimal(value / 10);
        text.append(digit_text((value % 10) as u8));
        text
    }
}

/// Writes a byte in two hexadecimal digits.
pub fn hex_digits(byte: u8) -> (text: String)
    ensures
        text@ == hex_octet(byte),
{
    let mut text = String::from_str(digit_text(byte / 16));
    text.append(digit_text(byte % 16));
    text
}

/// Writes a byte in eight binary digits.
pub fn binary_digits(byte: u8) -> (text: String)
    ensures
        text@ == binary_octet(byte),
{
    let mut text = String::from_str(digit_text(byte / 128 % 2));
    text.append(digit_text(byte / 64 % 2));
    text.append(digit_text(byte / 32 % 2));
    text.append(digit_text(byte / 16 % 2));
    text.append(digit_text(byte / 8 % 2));
    text.append(digit_text(byte / 4 % 2));
    text.append(digit_text(byte / 2 % 2));
    text.append(digit_text(byte % 2));
    text
}

} // verus!
