//! The ANSI-256 palette: sixteen system colours, a 6x6x6 colour cube and a
//! 24-step greyscale ramp.

use vstd::prelude::*;

verus! {

/// Sixteen standard colours in their classic values, three channels each:
/// eight dim ones from black to light grey, then grey and seven bright ones
/// up to white. The palette entries 0 to 15 are not read from here: see
/// [`system_rgb`].
pub const STD_COLORS: [u8; 48] = [
    0x00u8, 0x00u8, 0x00u8,
    0x80u8, 0x00u8, 0x00u8,
    0x00u8, 0x80u8, 0x00u8,
    0x80u8, 0x80u8, 0x00u8,
    0x00u8, 0x00u8, 0x80u8,
    0x80u8, 0x00u8, 0x80u8,
    0x00u8, 0x80u8, 0x80u8,
    0xc0u8, 0xc0u8, 0xc0u8,
    0x80u8, 0x80u8, 0x80u8,
    0xffu8, 0x00u8, 0x00u8,
    0xffu8, 0xffu8, 0x00u8,
    0x00u8, 0xffu8, 0x00u8,
    0x00u8, 0x00u8, 0xffu8,
    0xffu8, 0x00u8, 0xffu8,
    0x00u8, 0xffu8, 0xffu8,
    0xffu8, 0xffu8, 0xffu8,
];

/// Channel value of one coordinate of the colour cube.
pub open spec fn cube_level(digit: int) -> u8 {
    if digit <= 0 {
        0u8
    } else {
        (55 + 40 * digit) as u8
    }
}

/// The sixteen system colours, as XTerm sets them by default.
pub open spec fn system_rgb(index: u8) -> Seq<u8> {
    if index == 0 {
        seq![0u8, 0u8, 0u8]
    } else if index == 1 {
        seq![205u8, 0u8, 0u8]
    } else if index == 2 {
        seq![0u8, 205u8, 0u8]
    } else if index == 3 {
        seq![205u8, 205u8, 0u8]
    } else if index == 4 {
        seq![0u8, 0u8, 238u8]
    } else if index == 5 {
        seq![205u8, 0u8, 205u8]
    } else if index == 6 {
        seq![0u8, 205u8, 205u8]
    } else if index == 7 {
        seq![229u8, 229u8, 229u8]
    } else if index == 8 {
        seq![127u8, 127u8, 127u8]
    } else if index == 9 {
        seq![255u8, 0u8, 0u8]
    } else if index == 10 {
        seq![0u8, 255u8, 0u8]
    } else if index == 11 {
        seq![255u8, 255u8, 0u8]
    } else if index == 12 {
        seq![92u8, 92u8, 255u8]
    } else if index == 13 {
        seq![255u8, 0u8, 255u8]
    } else if index == 14 {
        seq![0u8, 255u8, 255u8]
    } else {
        seq![255u8, 255u8, 255u8]
    }
}

/// The red, green and blue channels of a palette entry.
pub open spec fn palette_rgb(index: u8) -> Seq<u8> {
    if index < 16 {
        system_rgb(index)
    } else if index < 232 {
        let cell = index - 16;
        seq![cube_level(cell / 36), cube_level((cell / 6) % 6), cube_level(cell % 6)]
    } else {
        let grey = (8 + 10 * (index - 232)) as u8;
        seq![grey, grey, grey]
    }
}

/// Calls `ansi_colours::rgb_from_ansi256`, which reads the entry from the
/// crate's table of 256 colours. Trusted: the table holds XTerm's default
/// system colours, then the cube with the levels 0, 95, 135, 175, 215, 255 on
/// each axis, then the ramp 8, 18, ..., 238.
#[verifier::external_body]
fn palette_entry(index: u8) -> (entry: (u8, u8, u8))
    ensures
        seq![entry.0, entry.1, entry.2] == palette_rgb(index),
{
    ansi_colours::rgb_from_ansi256(index)
}

/// The palette index that `ansi_colours::ansi256_from_rgb` gives for a
/// colour. The crate picks it by its own measure of likeness, among the cube
/// and the greys.
pub uninterp spec fn ansi256_of(rgb: Seq<u8>) -> u8;

/// How far apart two channel values are.
pub open spec fn channel_error(a: u8, b: u8) -> int {
    if a >= b {
        a - b
    } else {
        b - a
    }
}

/// How far apart two colours are: the sum of their channel errors.
pub open spec fn rgb_distance(a: Seq<u8>, b: Seq<u8>) -> int {
    channel_error(a[0], b[0]) + channel_error(a[1], b[1]) + channel_error(a[2], b[2])
}

/// The colour is one of the cube or of the greyscale ramp.
pub open spec fn is_standard_colour(rgb: Seq<u8>) -> bool {
    exists|index: u8| 16 <= index && palette_rgb(index) == rgb
}

/// Calls `ansi_colours::ansi256_from_rgb`. Trusted: the result is a function
/// of the three channels alone; it is an entry of the cube or a grey, never a
/// system colour (the crate chooses between a cell of the cube and an entry
/// of its table of greys, which holds no index below 16); and a colour that
/// the palette holds at an index from 16 on comes back as that index (the
/// crate's own tests hold it to that for each of them).
#[verifier::external_body]
fn nearest_entry(rgb: [u8; 3]) -> (index: u8)
    ensures
        index == ansi256_of(rgb@),
        index >= 16,
        forall|exact: u8| 16 <= exact && #[trigger] palette_rgb(exact) == rgb@ ==> index == exact,
{
    ansi_colours::ansi256_from_rgb(rgb)
}

/// The `[red, green, blue]` channels of one palette entry.
pub fn rgb_from_byte(byte: u8) -> (rgb: [u8; 3])
    ensures
        rgb@ == palette_rgb(byte),
{
    let entry = palette_entry(byte);
    [entry.0, entry.1, entry.2]
}

/// The palette index that stands for a colour: an entry of the cube or of
/// the greyscale ramp, never a system colour. A colour of the cube or of the
/// ramp gives its own index, which no other entry of the palette comes closer
/// to.
pub fn rgb_to_byte(rgb: [u8; 3]) -> (index: u8)
    ensures
        index == ansi256_of(rgb@),
        index >= 16,
        forall|exact: u8| 16 <= exact && #[trigger] palette_rgb(exact) == rgb@ ==> index == exact,
        is_standard_colour(rgb@) ==> forall|other: u8|
            rgb_distance(palette_rgb(index), rgb@) <= rgb_distance(
                #[trigger] palette_rgb(other),
                rgb@,
            ),
{
    let index = nearest_entry(rgb);
    proof {
        if is_standard_colour(rgb@) {
            let exact = choose|exact: u8| 16 <= exact && palette_rgb(exact) == rgb@;
            assert(palette_rgb(index) == rgb@);
        }
    }
    index
}

/// Every palette entry but the system colours 1 to 8 and 12 has the colour
/// of an entry of the cube or of the greyscale ramp, so that
/// [`rgb_to_byte`] takes the colour of [`rgb_from_byte`] back to an entry
/// which no other comes closer to.
pub proof fn lemma_standard_colour(index: u8)
    requires
        !(1 <= index <= 8),
        index != 12,
    ensures
        is_standard_colour(palette_rgb(index)),
{
    let twin: u8 = if index >= 16 {
        index
    } else if index == 0 {
        16
    } else if index == 9 {
        196
    } else if index == 10 {
        46
    } else if index == 11 {
        226
    } else if index == 13 {
        201
    } else if index == 14 {
        51
    } else {
        231
    };
    assert(palette_rgb(twin) =~= palette_rgb(index));
}

} // verus!
