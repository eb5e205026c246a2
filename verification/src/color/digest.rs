//! Folding bytes into one colour: every byte is read as a palette index, the
//! colours are combined channel by channel with exclusive or, and the three
//! channels of the outcome are folded into one index.

use vstd::prelude::*;
use vstd::slice::slice_subrange;
use vstd::string::StringSliceAdditionalSpecFns;
use vstd::utf8::encode_utf8;
use crate::color::numeral::{
    decimal_text, lemma_decimal_reads_back, parse_unsigned, parsed_unsigned,
};
use crate::color::palette::{palette_rgb, rgb_from_byte};

verus! {

/// The colour with every channel at zero: the identity of [`xor_rgb`].
pub open spec fn black() -> Seq<u8> {
    seq![0u8, 0u8, 0u8]
}

/// Exclusive or of two colours, channel by channel.
pub open spec fn xor_rgb(a: Seq<u8>, b: Seq<u8>) -> Seq<u8> {
    seq![a[0] ^ b[0], a[1] ^ b[1], a[2] ^ b[2]]
}

/// Exclusive or of a whole sequence of colours.
pub open spec fn merged(rgbs: Seq<[u8; 3]>) -> Seq<u8>
    decreases rgbs.len(),
{
    if rgbs.len() == 0 {
        black()
    } else {
        xor_rgb(merged(rgbs.drop_last()), rgbs.last()@)
    }
}

/// Every channel of every colour, in order.
pub open spec fn channels(rgbs: Seq<[u8; 3]>) -> Seq<u8>
    decreases rgbs.len(),
{
    if rgbs.len() == 0 {
        Seq::<u8>::empty()
    } else {
        channels(rgbs.drop_last()) + rgbs.last()@
    }
}

/// Exclusive or of the palette colours that the bytes name.
pub open spec fn rgb_digest(bytes: Seq<u8>) -> Seq<u8>
    decreases bytes.len(),
{
    if bytes.len() == 0 {
        black()
    } else {
        xor_rgb(rgb_digest(bytes.drop_last()), palette_rgb(bytes.last()))
    }
}

/// What [`merge_rgb`] computes: the merged colours, and with `extra` also the
/// palette colour of each of their channels.
pub open spec fn merged_with(rgbs: Seq<[u8; 3]>, extra: bool) -> Seq<u8> {
    if extra {
        xor_rgb(merged(rgbs), rgb_digest(channels(rgbs)))
    } else {
        merged(rgbs)
    }
}

/// Exclusive or of the three channels of a colour.
pub open spec fn fold_channels(rgb: Seq<u8>) -> u8 {
    rgb[0] ^ rgb[1] ^ rgb[2]
}

/// The colour index that a sequence of bytes digests to.
pub open spec fn digest(bytes: Seq<u8>) -> u8 {
    fold_channels(rgb_digest(bytes))
}

/// The bytes of a number, most significant first and without leading zeros:
/// its digits in base 256.
pub open spec fn be_digits(value: nat) -> Seq<u8>
    decreases value,
{
    if value < 256 {
        seq![value as u8]
    } else {
        be_digits(value / 256).push((value % 256) as u8)
    }
}

/// The colour index that an unsigned number stands for: itself up to 255, and
/// above that the digest of its bytes.
pub open spec fn wrap_index(color: usize) -> u8 {
    if color <= 255 {
        color as u8
    } else {
        digest(be_digits(color as nat))
    }
}

/// The text starts with `0x` or `0X`.
pub open spec fn has_hex_prefix(text: Seq<u8>) -> bool {
    text.len() >= 2 && text[0] == 48 && (text[1] == 120 || text[1] == 88)
}

/// The number that a text writes, if it writes one: a decimal number up to
/// 255, or else a hexadecimal number up to 64 bits, with or without a prefix
/// `0x`.
pub open spec fn numeric_value(text: Seq<u8>) -> Option<u64> {
    match parsed_unsigned(text, 10, 255) {
        Some(value) => Some(value),
        None => if has_hex_prefix(text) {
            parsed_unsigned(text.skip(2), 16, u64::MAX)
        } else {
            parsed_unsigned(text, 16, u64::MAX)
        },
    }
}

/// The colour index of a rendered value: where the text writes a number, the
/// digest of that number's bytes, and else the digest of the text itself.
pub open spec fn display_digest(text: Seq<u8>) -> u8 {
    match numeric_value(text) {
        Some(value) => digest(be_digits(value as nat)),
        None => digest(text),
    }
}

/// The exclusive or of two colours does not depend on their order.
pub proof fn lemma_xor_rgb_commutes(a: Seq<u8>, b: Seq<u8>)
    ensures
        xor_rgb(a, b) == xor_rgb(b, a),
{
    let (a0, a1, a2) = (a[0], a[1], a[2]);
    let (b0, b1, b2) = (b[0], b[1], b[2]);
    assert(a0 ^ b0 == b0 ^ a0) by (bit_vector);
    assert(a1 ^ b1 == b1 ^ a1) by (bit_vector);
    assert(a2 ^ b2 == b2 ^ a2) by (bit_vector);
}

/// The exclusive or of three colours does not depend on their grouping.
pub proof fn lemma_xor_rgb_associates(a: Seq<u8>, b: Seq<u8>, c: Seq<u8>)
    ensures
        xor_rgb(xor_rgb(a, b), c) == xor_rgb(a, xor_rgb(b, c)),
{
    let (a0, a1, a2) = (a[0], a[1], a[2]);
    let (b0, b1, b2) = (b[0], b[1], b[2]);
    let (c0, c1, c2) = (c[0], c[1], c[2]);
    assert((a0 ^ b0) ^ c0 == a0 ^ (b0 ^ c0)) by (bit_vector);
    assert((a1 ^ b1) ^ c1 == a1 ^ (b1 ^ c1)) by (bit_vector);
    assert((a2 ^ b2) ^ c2 == a2 ^ (b2 ^ c2)) by (bit_vector);
}

/// Black changes no colour.
pub proof fn lemma_xor_rgb_black(a: Seq<u8>)
    requires
        a.len() == 3,
    ensures
        xor_rgb(a, black()) == a,
        xor_rgb(black(), a) == a,
{
    let (a0, a1, a2) = (a[0], a[1], a[2]);
    assert(a0 ^ 0u8 == a0) by (bit_vector);
    assert(a1 ^ 0u8 == a1) by (bit_vector);
    assert(a2 ^ 0u8 == a2) by (bit_vector);
    assert(0u8 ^ a0 == a0) by (bit_vector);
    assert(0u8 ^ a1 == a1) by (bit_vector);
    assert(0u8 ^ a2 == a2) by (bit_vector);
    assert(xor_rgb(a, black()) =~= a);
    assert(xor_rgb(black(), a) =~= a);
}

/// The digest of a concatenation is the exclusive or of the two digests.
pub proof fn lemma_rgb_digest_concat(a: Seq<u8>, b: Seq<u8>)
    ensures
        rgb_digest(a + b) == xor_rgb(rgb_digest(a), rgb_digest(b)),
    decreases b.len(),
{
    if b.len() == 0 {
        assert(a + b =~= a);
        lemma_rgb_digest_len(a);
        lemma_xor_rgb_black(rgb_digest(a));
    } else {
        assert((a + b).drop_last() =~= a + b.drop_last());
        assert((a + b).last() == b.last());
        lemma_rgb_digest_concat(a, b.drop_last());
        lemma_xor_rgb_associates(
            rgb_digest(a),
            rgb_digest(b.drop_last()),
            palette_rgb(b.last()),
        );
    }
}

/// A digest has three channels.
pub proof fn lemma_rgb_digest_len(bytes: Seq<u8>)
    ensures
        rgb_digest(bytes).len() == 3,
    decreases bytes.len(),
{
    if bytes.len() > 0 {
        lemma_rgb_digest_len(bytes.drop_last());
    }
}

/// Equal bytes have equal digests: the digest depends on nothing else.
pub proof fn lemma_digest_repeatable(a: Seq<u8>, b: Seq<u8>)
    requires
        a =~= b,
    ensures
        digest(a) == digest(b),
        rgb_digest(a) == rgb_digest(b),
{
}

/// No bytes digest to black, and so to the index 0.
pub proof fn lemma_digest_empty()
    ensures
        rgb_digest(Seq::<u8>::empty()) == black(),
        digest(Seq::<u8>::empty()) == 0,
{
    assert(0u8 ^ 0u8 ^ 0u8 == 0u8) by (bit_vector);
}

/// The digest does not depend on the order of the bytes: two sequences may
/// change places.
pub proof fn lemma_digest_commutes(a: Seq<u8>, b: Seq<u8>)
    ensures
        rgb_digest(a + b) == rgb_digest(b + a),
        digest(a + b) == digest(b + a),
{
    lemma_rgb_digest_concat(a, b);
    lemma_rgb_digest_concat(b, a);
    lemma_xor_rgb_commutes(rgb_digest(a), rgb_digest(b));
}

/// Two bytes digest to the same index in either order.
pub proof fn lemma_digest_pair(a: u8, b: u8)
    ensures
        digest(seq![a, b]) == digest(seq![b, a]),
{
    assert(seq![a, b] =~= seq![a] + seq![b]);
    assert(seq![b, a] =~= seq![b] + seq![a]);
    lemma_digest_commutes(seq![a], seq![b]);
}

/// A zero byte changes no digest, wherever it stands.
pub proof fn lemma_digest_skips_zero(a: Seq<u8>, b: Seq<u8>)
    ensures
        rgb_digest(a + seq![0u8] + b) == rgb_digest(a + b),
        digest(a + seq![0u8] + b) == digest(a + b),
{
    let zero = seq![0u8];
    assert(zero.drop_last() =~= Seq::<u8>::empty());
    assert(palette_rgb(0) =~= black());
    lemma_xor_rgb_black(black());
    assert(rgb_digest(zero.drop_last()) == black());
    assert(zero.last() == 0u8);
    assert(rgb_digest(zero) == black());
    lemma_rgb_digest_concat(a, zero);
    lemma_rgb_digest_len(a);
    lemma_xor_rgb_black(rgb_digest(a));
    lemma_rgb_digest_concat(a + zero, b);
    lemma_rgb_digest_concat(a, b);
}

/// A text that writes a decimal byte has the digest of that one byte,
/// whatever its own bytes are.
pub proof fn lemma_decimal_byte_digest(text: Seq<u8>, value: u8)
    requires
        parsed_unsigned(text, 10, 255) == Some(value as u64),
    ensures
        display_digest(text) == digest(seq![value]),
{
}

/// A byte that is written in decimal has the digest of the byte, not of the
/// digits that write it.
pub proof fn lemma_rendered_byte_digest(value: u8)
    ensures
        display_digest(encode_utf8(decimal_text(value as nat))) == digest(seq![value]),
{
    lemma_decimal_reads_back(value as nat, 255);
}

/// An index is what it wraps to.
pub proof fn lemma_wrap_index_settles(color: usize)
    ensures
        wrap_index(wrap_index(color) as usize) == wrap_index(color),
{
}

/// Merged colours have three channels.
pub proof fn lemma_merged_len(rgbs: Seq<[u8; 3]>)
    ensures
        merged(rgbs).len() == 3,
    decreases rgbs.len(),
{
    if rgbs.len() > 0 {
        lemma_merged_len(rgbs.drop_last());
    }
}

fn xor_channels(a: [u8; 3], b: [u8; 3]) -> (c: [u8; 3])
    ensures
        c@ == xor_rgb(a@, b@),
{
    [a[0] ^ b[0], a[1] ^ b[1], a[2] ^ b[2]]
}

/// Merges a sequence of colours into one by exclusive or. With `extra`, the
/// palette colour of every channel of every colour is merged in as well.
pub fn merge_rgb(rgbs: &[[u8; 3]], extra: bool) -> (rgb: [u8; 3])
    ensures
        rgb@ == merged_with(rgbs@, extra),
{
    let mut result: [u8; 3] = [0u8, 0u8, 0u8];
    let mut i: usize = 0;
    while i < rgbs.len()
        invariant
            i <= rgbs.len(),
            result@ == merged(rgbs@.take(i as int)),
        decreases rgbs.len() - i,
    {
        assert(rgbs@.take(i + 1).drop_last() =~= rgbs@.take(i as int));
        result = xor_channels(result, rgbs[i]);
        i += 1;
    }
    assert(rgbs@.take(i as int) =~= rgbs@);
    if extra {
        proof {
            lemma_merged_len(rgbs@);
            lemma_xor_rgb_black(merged(rgbs@));
        }
        let mut i: usize = 0;
        while i < rgbs.len()
            invariant
                i <= rgbs.len(),
                result@ == xor_rgb(merged(rgbs@), rgb_digest(channels(rgbs@.take(i as int)))),
            decreases rgbs.len() - i,
        {
            let triple = rgbs[i];
            let ghost done = channels(rgbs@.take(i as int));
            assert(rgbs@.take(i + 1).drop_last() =~= rgbs@.take(i as int));
            assert(channels(rgbs@.take(i + 1)) == done + triple@);
            let mut j: usize = 0;
            while j < 3
                invariant
                    j <= 3,
                    result@ == xor_rgb(merged(rgbs@), rgb_digest(done + triple@.take(j as int))),
                decreases 3 - j,
            {
                proof {
                    let seen = done + triple@.take(j as int);
                    let next = done + triple@.take(j + 1);
                    assert(next.drop_last() =~= seen);
                    assert(next.last() == triple@[j as int]);
                    lemma_xor_rgb_associates(
                        merged(rgbs@),
                        rgb_digest(seen),
                        palette_rgb(triple@[j as int]),
                    );
                }
                result = xor_channels(result, rgb_from_byte(triple[j]));
                j += 1;
            }
            assert(triple@.take(3) =~= triple@);
            i += 1;
        }
        assert(rgbs@.take(i as int) =~= rgbs@);
    }
    result
}

/// The colour of a sequence of bytes: the exclusive or of the palette
/// colours that the bytes name.
pub fn rgb_from_bytes(bytes: &[u8]) -> (rgb: [u8; 3])
    ensures
        rgb@ == rgb_digest(bytes@),
{
    let mut rgbs: Vec<[u8; 3]> = Vec::new();
    let mut i: usize = 0;
    while i < bytes.len()
        invariant
            i <= bytes.len(),
            rgbs@.len() == i,
            merged(rgbs@) == rgb_digest(bytes@.take(i as int)),
        decreases bytes.len() - i,
    {
        let rgb = rgb_from_byte(bytes[i]);
        proof {
            assert(bytes@.take(i + 1).drop_last() =~= bytes@.take(i as int));
            assert(rgbs@.push(rgb).drop_last() =~= rgbs@);
        }
        rgbs.push(rgb);
        i += 1;
    }
    assert(bytes@.take(i as int) =~= bytes@);
    merge_rgb(rgbs.as_slice(), false)
}

/// The colour index of a sequence of bytes: the three channels of
/// [`rgb_from_bytes`] folded by exclusive or. No bytes give 0.
pub fn from_bytes(bytes: &[u8]) -> (color: u8)
    ensures
        color == digest(bytes@),
        bytes@.len() == 0 ==> color == 0,
{
    let rgb = rgb_from_bytes(bytes);
    proof {
        lemma_digest_empty();
    }
    rgb[0] ^ rgb[1] ^ rgb[2]
}

/// The colour index of a single byte is the byte itself.
pub fn from_byte(byte: u8) -> (color: u8)
    ensures
        color == byte,
{
    byte
}

fn be_bytes(value: u64) -> (bytes: Vec<u8>)
    ensures
        bytes@ == be_digits(value as nat),
    decreases value,
{
    if value < 256 {
        let mut bytes: Vec<u8> = Vec::new();
        bytes.push(value as u8);
        bytes
    } else {
        let mut bytes = be_bytes(value / 256);
        bytes.push((value % 256) as u8);
        bytes
    }
}

/// The bytes of a number, most significant first, without leading zeros. Zero
/// is the one byte 0.
pub fn non_zero_be_bytes(color: usize) -> (bytes: Vec<u8>)
    ensures
        bytes@ == be_digits(color as nat),
{
    be_bytes(color as u64)
}

/// Brings any unsigned number into the range of colour indices: a number up
/// to 255 is its own index, a larger one is the digest of its bytes. As the
/// digest heeds neither the order of the bytes nor any zero among them, the
/// index is the same however many bytes the machine takes for the number and
/// whichever end it puts first.
pub fn wrap(color: usize) -> (index: u8)
    ensures
        index == wrap_index(color),
{
    if color <= 255 {
        color as u8
    } else {
        let bytes = non_zero_be_bytes(color);
        from_bytes(bytes.as_slice())
    }
}

/// Reads the number that a text writes: see [`numeric_value`].
pub fn numeric_literal(text: &[u8]) -> (value: Option<u64>)
    ensures
        value == numeric_value(text@),
{
    match parse_unsigned(text, 10, 255) {
        Some(value) => Some(value),
        None => {
            if text.len() >= 2 && text[0] == 48 && (text[1] == 120 || text[1] == 88) {
                parse_unsigned(slice_subrange(text, 2, text.len()), 16, u64::MAX)
            } else {
                parse_unsigned(text, 16, u64::MAX)
            }
        },
    }
}

/// The colour index of a value's rendering. A rendering that writes a number
/// (a decimal byte, or a hexadecimal number of up to 64 bits with or without
/// `0x` in front) is digested as the bytes of that number, so that a small
/// number gets the colour of its value and not of its digits; any other
/// rendering is digested as its own UTF-8 bytes. Nothing is refused.
pub fn from_display(word: &str) -> (color: u8)
    ensures
        color == display_digest(word.spec_bytes()),
{
    let text = word.as_bytes();
    match numeric_literal(text) {
        Some(value) => {
            let bytes = be_bytes(value);
            from_bytes(bytes.as_slice())
        },
        None => from_bytes(text),
    }
}

/// The colour index of a value's debug rendering: the digest of its UTF-8
/// bytes.
pub fn from_debug(rendered: &str) -> (color: u8)
    ensures
        color == digest(rendered.spec_bytes()),
{
    from_bytes(rendered.as_bytes())
}

/// The colour of a value's rendering: the colour of its UTF-8 bytes.
pub fn rgb_from_display(word: &str) -> (rgb: [u8; 3])
    ensures
        rgb@ == rgb_digest(word.spec_bytes()),
{
    rgb_from_bytes(word.as_bytes())
}

} // verus!
