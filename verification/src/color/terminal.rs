//! The width of the terminal, from what its surroundings report.

use vstd::prelude::*;
use vstd::string::StringSliceAdditionalSpecFns;
use crate::color::escape::{pad, padded};
use crate::color::numeral::{parse_unsigned, parsed_unsigned};

verus! {

/// The width that is taken where nothing reports one.
pub const DEFAULT_COLUMNS: usize = 130;

/// The width of the terminal in columns: the override where it is a decimal
/// number, else what the probe reported unless that is 0, else the default.
pub open spec fn columns_of(setting: Option<Seq<u8>>, probe: u16) -> usize {
    if setting is Some && parsed_unsigned(setting->0, 10, usize::MAX as u64) is Some {
        parsed_unsigned(setting->0, 10, usize::MAX as u64)->0 as usize
    } else if probe != 0 {
        probe as usize
    } else {
        DEFAULT_COLUMNS
    }
}

/// The bytes of a text that may be missing.
pub open spec fn setting_bytes(setting: Option<&str>) -> Option<Seq<u8>> {
    match setting {
        Some(text) => Some(text.spec_bytes()),
        None => None,
    }
}

/// Settles the width of the terminal in columns. `setting` is the text of
/// the override from the environment, if it is set; `probe` is the number of
/// columns that the terminal reported, 0 where it reported none. A setting
/// that is a decimal number wins; else the probe, unless it is 0; else 130.
pub fn term_cols(setting: Option<&str>, probe: u16) -> (columns: usize)
    ensures
        columns == columns_of(setting_bytes(setting), probe),
        setting is None && probe == 0 ==> columns == DEFAULT_COLUMNS,
{
    let chosen = match setting {
        Some(text) => parse_unsigned(text.as_bytes(), 10, usize::MAX as u64),
        None => None,
    };
    match chosen {
        Some(columns) => columns as usize,
        None => match probe {
            0 => DEFAULT_COLUMNS,
            cols => cols as usize,
        },
    }
}

/// Pads a text with spaces until it fills the width of the terminal, as
/// [`term_cols`] settles it.
pub fn pad_columns(text: &str, setting: Option<&str>, probe: u16) -> (out: String)
    ensures
        out@ == padded(text@, columns_of(setting_bytes(setting), probe) as nat),
{
    let cols = term_cols(setting, probe);
    pad(text, cols)
}

} // verus!
