//! Transforms of a colour index: lighter, darker, inverted, and the pairing
//! of a foreground with a background that sets it off.

use vstd::prelude::*;
use crate::color::digest::{wrap, wrap_index};
use crate::color::palette::{ansi256_of, cube_level, palette_rgb, rgb_from_byte, rgb_to_byte};

verus! {

/// The index of the white corner of the colour cube.
pub const NEAR_WHITE: u8 = 231;

/// The index of the black corner of the colour cube.
pub const NEAR_BLACK: u8 = 16;

/// The channel value from which on a channel counts as bright, and up to
/// which it counts as dark.
pub const BAND_EDGE: u8 = 0x75;

/// A channel made bright: a value below the edge is mirrored to the upper
/// half.
pub open spec fn bright_band(channel: u8) -> u8 {
    if channel >= BAND_EDGE {
        channel
    } else {
        (0xff - channel) as u8
    }
}

/// A channel made dark: a value above the edge loses three times its
/// quarter.
pub open spec fn dark_band(channel: u8) -> u8 {
    if channel <= BAND_EDGE {
        channel
    } else {
        (channel - (channel / 4) * 3) as u8
    }
}

/// A colour with every channel made bright.
pub open spec fn lightened(rgb: Seq<u8>) -> Seq<u8> {
    seq![bright_band(rgb[0]), bright_band(rgb[1]), bright_band(rgb[2])]
}

/// A colour with every channel made dark.
pub open spec fn darkened(rgb: Seq<u8>) -> Seq<u8> {
    seq![dark_band(rgb[0]), dark_band(rgb[1]), dark_band(rgb[2])]
}

/// A colour with every channel replaced by its complement to 255.
pub open spec fn inverted(rgb: Seq<u8>) -> Seq<u8> {
    seq![(255 - rgb[0]) as u8, (255 - rgb[1]) as u8, (255 - rgb[2]) as u8]
}

/// The palette index of the lightened colour of an entry.
pub open spec fn bright_index(index: u8) -> u8 {
    ansi256_of(lightened(palette_rgb(index)))
}

/// The palette index of the darkened colour of an entry.
pub open spec fn dark_index(index: u8) -> u8 {
    ansi256_of(darkened(palette_rgb(index)))
}

/// The palette index of the inverted colour of an entry.
pub open spec fn flipped_index(index: u8) -> u8 {
    ansi256_of(inverted(palette_rgb(index)))
}

/// The palette index of the inverted colour of an entry, made brighter where
/// the entry's own index lies in the dark band and darker where it does not.
pub open spec fn inverse_index(index: u8) -> u8 {
    if index <= BAND_EDGE {
        bright_index(flipped_index(index))
    } else {
        dark_index(flipped_index(index))
    }
}

/// The entries that count as dark: black and grey among the system colours,
/// the darkest rows of the cube and the darkest steps of the greyscale ramp.
pub open spec fn is_dark_entry(color: usize) -> bool {
    ||| color == 0
    ||| color == 8
    ||| 16 <= color < 21
    ||| 52 <= color < 61
    ||| 88 <= color < 93
    ||| 232 <= color < 239
}

/// The extreme that sets a colour off: near white for a dark entry, near
/// black for any other.
pub open spec fn contrast_index(color: usize) -> u8 {
    if is_dark_entry(color) {
        NEAR_WHITE
    } else {
        NEAR_BLACK
    }
}

/// The foreground and background that a seed stands for.
pub open spec fn couple_of(color: usize) -> (u8, u8) {
    let fore = bright_index(wrap_index(color));
    (fore, contrast_index(fore as usize))
}

/// The coordinate of a cube entry along one axis, the axis given by its
/// weight in the index: 36 for red, 6 for green, 1 for blue.
pub open spec fn cube_coordinate(index: u8, weight: int) -> int {
    ((index - 16) / weight) % 6
}

/// No channel of a lightened colour is below the edge of the bright band or
/// below what it was.
pub proof fn lemma_lightened_never_darker(rgb: Seq<u8>, channel: int)
    requires
        rgb.len() == 3,
        0 <= channel < 3,
    ensures
        lightened(rgb)[channel] >= rgb[channel],
        lightened(rgb)[channel] >= BAND_EDGE,
{
}

/// No channel of a darkened colour is above what it was.
pub proof fn lemma_darkened_never_brighter(rgb: Seq<u8>, channel: int)
    requires
        rgb.len() == 3,
        0 <= channel < 3,
    ensures
        darkened(rgb)[channel] <= rgb[channel],
{
}

/// Inverting a colour twice gives it back.
pub proof fn lemma_inverted_twice(rgb: Seq<u8>)
    requires
        rgb.len() == 3,
    ensures
        inverted(inverted(rgb)) == rgb,
{
    assert(inverted(inverted(rgb)) =~= rgb);
}

/// Whether a channel value, or the index that a larger number wraps to, is
/// at the edge of the bright band or above.
pub fn is_bright_rgb_band(color: usize) -> (bright: bool)
    ensures
        bright == (wrap_index(color) >= BAND_EDGE),
{
    wrap(color) >= BAND_EDGE
}

/// A channel value made bright. The result is never darker than the value
/// and never below the edge of the bright band.
pub fn bright_rgb_band(color: usize) -> (channel: u8)
    ensures
        channel == bright_band(wrap_index(color)),
        channel >= wrap_index(color),
        channel >= BAND_EDGE,
{
    if !is_bright_rgb_band(color) {
        0xff - wrap(color)
    } else {
        wrap(color)
    }
}

/// Whether a channel value, or the index that a larger number wraps to, is
/// at the edge of the dark band or below.
pub fn is_dark_rgb_band(color: usize) -> (dark: bool)
    ensures
        dark == (wrap_index(color) <= BAND_EDGE),
{
    wrap(color) <= BAND_EDGE
}

/// A channel value made dark. The result is never brighter than the value.
pub fn dark_rgb_band(color: usize) -> (channel: u8)
    ensures
        channel == dark_band(wrap_index(color)),
        channel <= wrap_index(color),
{
    let color = wrap(color);
    if !is_dark_rgb_band(color as usize) {
        color - ((color / 4) * 3)
    } else {
        color
    }
}

/// A brighter colour near the given one, for any number: every channel of
/// its palette colour is made bright, and the outcome is taken back to the
/// palette.
pub fn bright(color: usize) -> (index: u8)
    ensures
        index == bright_index(wrap_index(color)),
        16 <= index <= 255,
{
    let rgb = rgb_from_byte(wrap(color));
    let lighter = [
        bright_rgb_band(rgb[0] as usize),
        bright_rgb_band(rgb[1] as usize),
        bright_rgb_band(rgb[2] as usize),
    ];
    assert(lighter@ =~= lightened(palette_rgb(wrap_index(color))));
    rgb_to_byte(lighter)
}

/// A darker colour near the given one, for any number: every channel of its
/// palette colour is made dark, and the outcome is taken back to the
/// palette.
pub fn dark(color: usize) -> (index: u8)
    ensures
        index == dark_index(wrap_index(color)),
        16 <= index <= 255,
{
    let rgb = rgb_from_byte(wrap(color));
    let darker = [
        dark_rgb_band(rgb[0] as usize),
        dark_rgb_band(rgb[1] as usize),
        dark_rgb_band(rgb[2] as usize),
    ];
    assert(darker@ =~= darkened(palette_rgb(wrap_index(color))));
    rgb_to_byte(darker)
}

/// The complement of a colour, channel by channel.
pub fn invert_rgb(color: [u8; 3]) -> (rgb: [u8; 3])
    ensures
        rgb@ == inverted(color@),
{
    [255u8 - color[0], 255u8 - color[1], 255u8 - color[2]]
}

/// The extreme that sets a colour off: near white for a dark entry, near
/// black for every other number.
pub fn invert_bw(color: usize) -> (index: u8)
    ensures
        index == contrast_index(color),
        index == NEAR_WHITE || index == NEAR_BLACK,
{
    if color == 0 || color == 8 || (16 <= color && color < 21) || (52 <= color && color < 61) || (
    88 <= color && color < 93) || (232 <= color && color < 239) {
        NEAR_WHITE
    } else {
        NEAR_BLACK
    }
}

/// The inverse of a colour, for any number: its palette colour is inverted
/// and taken back to the palette, and the outcome is made brighter where the
/// colour's own index lies in the dark band and darker where it does not.
pub fn invert_ansi(color: usize) -> (index: u8)
    ensures
        index == inverse_index(wrap_index(color)),
        16 <= index <= 255,
{
    let flipped = rgb_to_byte(invert_rgb(rgb_from_byte(wrap(color))));
    if is_dark_rgb_band(color) {
        bright(flipped as usize)
    } else {
        dark(flipped as usize)
    }
}

/// A legible pair of foreground and background from one seed: the
/// foreground is the brightened seed, the background the extreme that sets
/// the foreground off.
pub fn couple(color: usize) -> (pair: (u8, u8))
    ensures
        pair == couple_of(color),
        16 <= pair.0 <= 255,
        pair.1 == NEAR_WHITE || pair.1 == NEAR_BLACK,
{
    let fore = bright(wrap(color) as usize);
    let back = invert_bw(fore as usize);
    (fore, back)
}

/// The channel value of a cube entry along one axis, the axis given by its
/// weight in the index: 36 for red, 6 for green, 1 for blue.
pub fn cube_ansi_256(color: usize, op: usize) -> (level: u8)
    requires
        wrap_index(color) >= 16,
        op > 0,
    ensures
        level == cube_level(cube_coordinate(wrap_index(color), op as int)),
{
    let color = wrap(color) as usize;
    let cube = ((color - 16) / op) % 6;
    if cube == 0 {
        0u8
    } else {
        wrap((14135 + 10280 * cube) / 256)
    }
}

/// The `[red, green, blue]` channels of the palette entry that a number
/// wraps to.
pub fn get_ansi_rgb(color: usize) -> (rgb: [u8; 3])
    ensures
        rgb@ == palette_rgb(wrap_index(color)),
{
    rgb_from_byte(wrap(color))
}

} // verus!
