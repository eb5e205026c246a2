//! Everything that turns bytes and text into ANSI-256 colours and escape
//! sequences, and text painted in a colour of its own: the colour is derived
//! from the text, or from the byte that the text writes.

pub mod digest;
pub mod escape;
pub mod numeral;
pub mod palette;
pub mod terminal;
pub mod transform;

pub use self::digest::{
    from_byte, from_bytes, from_debug, from_display, merge_rgb, non_zero_be_bytes, rgb_from_bytes,
    rgb_from_display, wrap,
};
pub use self::escape::{ansi, ansi_clear, bg, bgfg, fg, pad, reset};
pub use self::palette::{rgb_from_byte, rgb_to_byte, STD_COLORS};
pub use self::terminal::{pad_columns, term_cols};
pub use self::transform::{
    bright, bright_rgb_band, couple, cube_ansi_256, dark, dark_rgb_band, get_ansi_rgb, invert_ansi,
    invert_bw, invert_rgb, is_bright_rgb_band, is_dark_rgb_band,
};

use vstd::prelude::*;
use vstd::string::{StringExecFns, StringSliceAdditionalSpecFns};
use vstd::utf8::encode_utf8;
use crate::color::digest::{digest, display_digest};
use crate::color::escape::painted;
use crate::color::numeral::{
    binary_digits, binary_octet, decimal, decimal_text, hex_digits, hex_octet,
    lemma_decimal_reads_back, lemma_hex_octet_reads_back, parse_unsigned, parsed_unsigned,
};
use crate::color::transform::{bright_index, couple_of, dark_index};

verus! {

/// A text with the seed's colour as its foreground.
pub open spec fn fore_painted(text: Seq<char>, color: usize) -> Seq<char> {
    painted(text, couple_of(color).0, couple_of(color).1)
}

/// A text with the seed's colour as its background.
pub open spec fn back_painted(text: Seq<char>, color: usize) -> Seq<char> {
    painted(text, couple_of(color).1, couple_of(color).0)
}

/// The colour index that a text picks for itself: the number it writes where
/// it writes a decimal byte, else its [`display_digest`].
pub open spec fn auto_index(text: Seq<u8>) -> u8 {
    match parsed_unsigned(text, 10, 255) {
        Some(value) => value as u8,
        None => display_digest(text),
    }
}

/// The colour index of an item that is written in hexadecimal: the byte it
/// writes, or 0 where it writes more than a byte.
pub open spec fn hex_index(text: Seq<u8>) -> u8 {
    match parsed_unsigned(text, 16, 255) {
        Some(value) => value as u8,
        None => 0,
    }
}

/// An item of a list of hexadecimal numbers, from its digits.
pub open spec fn hex_item(digits: Seq<char>, color: bool) -> Seq<char> {
    if color {
        fore_painted("0x"@ + digits, hex_index(encode_utf8(digits)) as usize)
    } else {
        "0x"@ + digits
    }
}

/// An item of a list of rendered values.
pub open spec fn display_item(text: Seq<char>, color: bool) -> Seq<char> {
    if color {
        fore_painted(text, display_digest(encode_utf8(text)) as usize)
    } else {
        text
    }
}

/// An item of a list of debug renderings.
pub open spec fn debug_item(text: Seq<char>, color: bool) -> Seq<char> {
    if color {
        fore_painted(text, digest(encode_utf8(text)) as usize)
    } else {
        text
    }
}

/// The texts of a sequence of strings.
pub open spec fn texts(parts: Seq<String>) -> Seq<Seq<char>> {
    Seq::new(parts.len(), |i: int| parts[i]@)
}

/// The parts in order, with the separator between each two.
pub open spec fn joined(parts: Seq<Seq<char>>, separator: Seq<char>) -> Seq<char>
    decreases parts.len(),
{
    if parts.len() == 0 {
        Seq::<char>::empty()
    } else if parts.len() == 1 {
        parts[0]
    } else {
        joined(parts.drop_last(), separator) + separator + parts.last()
    }
}

/// The items between square brackets, with a comma and a space between each
/// two.
pub open spec fn listed(items: Seq<Seq<char>>) -> Seq<char> {
    "["@ + joined(items, ", "@) + "]"@
}

/// A byte that is written in decimal picks itself as its colour, so that
/// [`auto`] paints what [`decimal`] writes as [`byte`] paints the byte.
pub proof fn lemma_auto_of_decimal(value: u8)
    ensures
        auto_index(encode_utf8(decimal_text(value as nat))) == value,
{
    lemma_decimal_reads_back(value as nat, 255);
}

/// The two digits of a byte make the item that [`byte_hex`] gives for the
/// byte.
pub proof fn lemma_hex_item_of_octet(value: u8)
    ensures
        hex_index(encode_utf8(hex_octet(value))) == value,
        hex_item(hex_octet(value), true) == fore_painted("0x"@ + hex_octet(value), value as usize),
{
    lemma_hex_octet_reads_back(value);
}

/// Paints the text with the seed's colour as its foreground, on the
/// background that sets it off, and resets the colours after it.
pub fn fore(text: &str, color: usize) -> (out: String)
    ensures
        out@ == fore_painted(text@, color),
{
    let (fore, back) = couple(color);
    ansi(text, fore as usize, back as usize)
}

/// Paints the text with the seed's colour as its background, in the
/// foreground that sets it off, and resets the colours after it.
pub fn back(text: &str, color: usize) -> (out: String)
    ensures
        out@ == back_painted(text@, color),
{
    let (back, fore) = couple(color);
    ansi(text, fore as usize, back as usize)
}

/// Picks the colour index of a text: see [`auto_index`].
pub fn auto_color(word: &str) -> (index: u8)
    ensures
        index == auto_index(word.spec_bytes()),
{
    match parse_unsigned(word.as_bytes(), 10, 255) {
        Some(value) => value as u8,
        None => from_display(word),
    }
}

/// Paints a text in the colour that it picks for itself.
pub fn auto(word: &str) -> (out: String)
    ensures
        out@ == fore_painted(word@, auto_index(word.spec_bytes()) as usize),
{
    fore(word, auto_color(word) as usize)
}

/// Paints a text in a brighter version of the colour that it picks for
/// itself.
pub fn auto_bright(word: &str) -> (out: String)
    ensures
        out@ == fore_painted(word@, bright_index(auto_index(word.spec_bytes())) as usize),
{
    fore(word, bright(auto_color(word) as usize) as usize)
}

/// Paints a text in a darker version of the colour that it picks for
/// itself.
pub fn auto_dark(word: &str) -> (out: String)
    ensures
        out@ == fore_painted(word@, dark_index(auto_index(word.spec_bytes())) as usize),
{
    fore(word, dark(auto_color(word) as usize) as usize)
}

/// A byte in decimal, painted in the colour of its own value.
pub fn byte(value: u8) -> (out: String)
    ensures
        out@ == fore_painted(decimal_text(value as nat), value as usize),
{
    let (fore, back) = couple(from_byte(value) as usize);
    let text = decimal(value as u64);
    ansi(text.as_str(), fore as usize, back as usize)
}

/// A byte as `0x` and two hexadecimal digits, painted in the colour of its
/// own value.
pub fn byte_hex(byte: u8) -> (out: String)
    ensures
        out@ == fore_painted("0x"@ + hex_octet(byte), byte as usize),
{
    let (fore, back) = couple(from_byte(byte) as usize);
    let mut text = String::from_str("0x");
    let digits = hex_digits(byte);
    text.append(digits.as_str());
    ansi(text.as_str(), fore as usize, back as usize)
}

/// A byte as `0b` and eight binary digits, painted in the colour of its own
/// value.
pub fn byte_bin(byte: u8) -> (out: String)
    ensures
        out@ == fore_painted("0b"@ + binary_octet(byte), byte as usize),
{
    let (fore, back) = couple(from_byte(byte) as usize);
    let mut text = String::from_str("0b");
    let digits = binary_digits(byte);
    text.append(digits.as_str());
    ansi(text.as_str(), fore as usize, back as usize)
}

/// Joins the parts, with the separator between each two.
pub fn join(parts: &Vec<String>, separator: &str) -> (out: String)
    ensures
        out@ == joined(texts(parts@), separator@),
{
    let ghost all = texts(parts@);
    let mut out = String::new();
    let mut i: usize = 0;
    while i < parts.len()
        invariant
            i <= parts.len(),
            all == texts(parts@),
            out@ == joined(all.take(i as int), separator@),
        decreases parts.len() - i,
    {
        proof {
            assert(all.take(i + 1).drop_last() =~= all.take(i as int));
            assert(all.take(i + 1).last() == parts@[i as int]@);
            if i == 0 {
                assert(out@ + parts@[0]@ =~= parts@[0]@);
            }
        }
        if i > 0 {
            out.append(separator);
        }
        out.append(parts[i].as_str());
        i += 1;
    }
    assert(all.take(i as int) =~= all);
    out
}

fn bracketed(items: &Vec<String>) -> (out: String)
    ensures
        out@ == listed(texts(items@)),
{
    let mut out = String::from_str("[");
    let inner = join(items, ", ");
    out.append(inner.as_str());
    out.append("]");
    out
}

/// A list of hexadecimal numbers, each given by its digits (two or more, in
/// lower case). Every item gets `0x` in front; with `color` it is painted in
/// the colour of the byte that it writes, or of 0 where it writes more than a
/// byte.
pub fn format_slice_hex(items: &[&str], color: bool) -> (out: String)
    ensures
        out@ == listed(Seq::new(items@.len(), |i: int| hex_item(items@[i]@, color))),
{
    let ghost wanted = Seq::new(items@.len(), |i: int| hex_item(items@[i]@, color));
    let mut parts: Vec<String> = Vec::new();
    let mut i: usize = 0;
    while i < items.len()
        invariant
            i <= items.len(),
            wanted == Seq::new(items@.len(), |i: int| hex_item(items@[i]@, color)),
            parts@.len() == i,
            texts(parts@) == wanted.take(i as int),
        decreases items.len() - i,
    {
        let digits = items[i];
        let mut text = String::from_str("0x");
        text.append(digits);
        let part = if color {
            let index = match parse_unsigned(digits.as_bytes(), 16, 255) {
                Some(value) => value as u8,
                None => 0,
            };
            fore(text.as_str(), from_byte(index) as usize)
        } else {
            text
        };
        assert(part@ == wanted[i as int]);
        let ghost before = parts@;
        parts.push(part);
        assert forall|j: int| 0 <= j <= i implies texts(parts@)[j] == wanted[j] by {
            if j < i {
                assert(texts(before)[j] == wanted.take(i as int)[j]);
            }
        }
        assert(texts(parts@) =~= wanted.take(i + 1));
        i += 1;
    }
    assert(wanted.take(i as int) =~= wanted);
    bracketed(&parts)
}

/// A list of rendered values. With `color` every item is painted in the
/// colour that [`from_display`] gives it.
pub fn format_slice_display(items: &[&str], color: bool) -> (out: String)
    ensures
        out@ == listed(Seq::new(items@.len(), |i: int| display_item(items@[i]@, color))),
{
    let ghost wanted = Seq::new(items@.len(), |i: int| display_item(items@[i]@, color));
    let mut parts: Vec<String> = Vec::new();
    let mut i: usize = 0;
    while i < items.len()
        invariant
            i <= items.len(),
            wanted == Seq::new(items@.len(), |i: int| display_item(items@[i]@, color)),
            parts@.len() == i,
            texts(parts@) == wanted.take(i as int),
        decreases items.len() - i,
    {
        let text = items[i];
        let part = if color {
            fore(text, from_display(text) as usize)
        } else {
            String::from_str(text)
        };
        assert(part@ == wanted[i as int]);
        let ghost before = parts@;
        parts.push(part);
        assert forall|j: int| 0 <= j <= i implies texts(parts@)[j] == wanted[j] by {
            if j < i {
                assert(texts(before)[j] == wanted.take(i as int)[j]);
            }
        }
        assert(texts(parts@) =~= wanted.take(i + 1));
        i += 1;
    }
    assert(wanted.take(i as int) =~= wanted);
    bracketed(&parts)
}

/// A list of debug renderings. With `color` every item is painted in the
/// colour that [`from_debug`] gives it.
pub fn format_slice_debug(items: &[&str], color: bool) -> (out: String)
    ensures
        out@ == listed(Seq::new(items@.len(), |i: int| debug_item(items@[i]@, color))),
{
    let ghost wanted = Seq::new(items@.len(), |i: int| debug_item(items@[i]@, color));
    let mut parts: Vec<String> = Vec::new();
    let mut i: usize = 0;
    while i < items.len()
        invariant
            i <= items.len(),
            wanted == Seq::new(items@.len(), |i: int| debug_item(items@[i]@, color)),
            parts@.len() == i,
            texts(parts@) == wanted.take(i as int),
        decreases items.len() - i,
    {
        let text = items[i];
        let part = if color {
            fore(text, from_debug(text) as usize)
        } else {
            String::from_str(text)
        };
        assert(part@ == wanted[i as int]);
        let ghost before = parts@;
        parts.push(part);
        assert forall|j: int| 0 <= j <= i implies texts(parts@)[j] == wanted[j] by {
            if j < i {
                assert(texts(before)[j] == wanted.take(i as int)[j]);
            }
        }
        assert(texts(parts@) =~= wanted.take(i + 1));
        i += 1;
    }
    assert(wanted.take(i as int) =~= wanted);
    bracketed(&parts)
}

} // verus!
