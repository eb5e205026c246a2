//! The escape sequences that select a colour of the 256-colour palette, and
//! padding that takes the columns into account that a text fills on screen.

use vstd::prelude::*;
use vstd::string::{StringExecFns, StringSliceAdditionalSpecFns};
use vstd::utf8::encode_utf8;
use crate::color::digest::{wrap, wrap_index};
use crate::color::numeral::{decimal, decimal_text, lemma_decimal_text_digits};

verus! {

/// The sequence that selects a bold foreground colour.
pub open spec fn foreground_code(index: u8) -> Seq<char> {
    "\x1b[1;38;5;"@ + decimal_text(index as nat) + "m"@
}

/// The sequence that selects a bold background colour.
pub open spec fn background_code(index: u8) -> Seq<char> {
    "\x1b[1;48;5;"@ + decimal_text(index as nat) + "m"@
}

/// The sequence that puts every attribute back to its default.
pub open spec fn reset_code() -> Seq<char> {
    "\x1b[0m"@
}

/// The sequence that clears the screen and its scrollback and sends the
/// cursor home.
pub open spec fn clear_code() -> Seq<char> {
    "\x1b[2J\x1b[3J\x1b[H"@
}

/// A text in both colours, with the colours reset after it.
pub open spec fn painted(text: Seq<char>, fore: u8, back: u8) -> Seq<char> {
    background_code(back) + foreground_code(fore) + text + reset_code()
}

/// Appends the sequence that resets the colours.
pub fn reset(text: &str) -> (out: String)
    ensures
        out@ == text@ + reset_code(),
{
    let mut out = String::from_str(text);
    out.append("\x1b[0m");
    out
}

/// Puts the sequence that selects the foreground colour before the text,
/// without a reset after it.
pub fn fg(text: &str, color: usize) -> (out: String)
    ensures
        out@ == foreground_code(wrap_index(color)) + text@,
{
    let mut out = String::from_str("\x1b[1;38;5;");
    let index = decimal(wrap(color) as u64);
    out.append(index.as_str());
    out.append("m");
    out.append(text);
    out
}

/// Puts the sequence that selects the background colour before the text,
/// without a reset after it.
pub fn bg(text: &str, color: usize) -> (out: String)
    ensures
        out@ == background_code(wrap_index(color)) + text@,
{
    let mut out = String::from_str("\x1b[1;48;5;");
    let index = decimal(wrap(color) as u64);
    out.append(index.as_str());
    out.append("m");
    out.append(text);
    out
}

/// Selects both colours before the text, the background first, without a
/// reset after it.
pub fn bgfg(text: &str, fore: usize, back: usize) -> (out: String)
    ensures
        out@ == background_code(wrap_index(back)) + foreground_code(wrap_index(fore)) + text@,
{
    let inner = fg(text, wrap(fore) as usize);
    bg(inner.as_str(), wrap(back) as usize)
}

/// Selects both colours before the text and resets them after it.
pub fn ansi(text: &str, fore: usize, back: usize) -> (out: String)
    ensures
        out@ == painted(text@, wrap_index(fore), wrap_index(back)),
{
    let inner = bgfg(text, fore, back);
    reset(inner.as_str())
}

/// The sequence that clears the screen.
pub fn ansi_clear() -> (out: String)
    ensures
        out@ == clear_code(),
{
    String::from_str("\x1b[2J\x1b[3J\x1b[H")
}

/// Where a scan of a text stands with respect to escape sequences.
#[derive(Clone, Copy, PartialEq, Eq, Structural)]
pub enum Scan {
    /// Outside any escape sequence.
    Text,
    /// Right after the escape character.
    Escape,
    /// Inside a control sequence, before its final character.
    Control,
}

/// Where the scan stands after one more character.
pub open spec fn scan_step(state: Scan, c: char) -> Scan {
    match state {
        Scan::Text => if c == '\x1b' {
            Scan::Escape
        } else {
            Scan::Text
        },
        Scan::Escape => if c == '[' {
            Scan::Control
        } else {
            Scan::Text
        },
        Scan::Control => if '@' <= c && c <= '~' {
            Scan::Text
        } else {
            Scan::Control
        },
    }
}

/// Where the scan stands at the end of a text.
pub open spec fn scan_state(text: Seq<char>) -> Scan
    decreases text.len(),
{
    if text.len() == 0 {
        Scan::Text
    } else {
        scan_step(scan_state(text.drop_last()), text.last())
    }
}

/// The columns that a text fills on screen: one for each character that is
/// no part of an escape sequence, however many bytes encode it. An escape
/// sequence is the escape character with the character after it, and where
/// that is `[`, everything up to the first character from `@` to `~`. Every
/// other character counts as one column, whatever a terminal makes of it.
pub open spec fn visible_width(text: Seq<char>) -> nat
    decreases text.len(),
{
    if text.len() == 0 {
        0
    } else {
        let before = text.drop_last();
        if scan_state(before) == Scan::Text && text.last() != '\x1b' {
            visible_width(before) + 1
        } else {
            visible_width(before)
        }
    }
}

/// A run of spaces.
pub open spec fn spaces(count: nat) -> Seq<char> {
    Seq::new(count, |i: int| ' ')
}

/// The text, then as many spaces as it is short of `length` columns.
pub open spec fn padded(text: Seq<char>, length: nat) -> Seq<char> {
    if length > visible_width(text) {
        text + spaces((length - visible_width(text)) as nat)
    } else {
        text
    }
}

/// After a text that ends outside any escape sequence, a scan goes on as if
/// from the start: the columns of the two parts add up.
pub proof fn lemma_scan_concat(a: Seq<char>, b: Seq<char>)
    requires
        scan_state(a) == Scan::Text,
    ensures
        scan_state(a + b) == scan_state(b),
        visible_width(a + b) == visible_width(a) + visible_width(b),
    decreases b.len(),
{
    if b.len() == 0 {
        assert(a + b =~= a);
    } else {
        assert((a + b).drop_last() =~= a + b.drop_last());
        lemma_scan_concat(a, b.drop_last());
    }
}

/// Inside a control sequence, characters below `@` fill no column and do not
/// end the sequence.
pub proof fn lemma_scan_parameters(prefix: Seq<char>, run: Seq<char>)
    requires
        scan_state(prefix) == Scan::Control,
        forall|i: int| 0 <= i < run.len() ==> #[trigger] run[i] < '@',
    ensures
        scan_state(prefix + run) == Scan::Control,
        visible_width(prefix + run) == visible_width(prefix),
    decreases run.len(),
{
    if run.len() == 0 {
        assert(prefix + run =~= prefix);
    } else {
        assert((prefix + run).drop_last() =~= prefix + run.drop_last());
        assert((prefix + run).last() == run[run.len() - 1]);
        lemma_scan_parameters(prefix, run.drop_last());
    }
}

/// The sequences that select a colour fill no column, and end where text may
/// follow.
pub proof fn lemma_colour_codes_fill_no_column(index: u8)
    ensures
        scan_state(foreground_code(index)) == Scan::Text,
        visible_width(foreground_code(index)) == 0,
        scan_state(background_code(index)) == Scan::Text,
        visible_width(background_code(index)) == 0,
{
    let digits = decimal_text(index as nat);
    lemma_decimal_text_digits(index as nat);
    reveal_strlit("m");
    let fore = "\x1b[1;38;5;"@;
    assert(scan_state(fore) == Scan::Control && visible_width(fore) == 0) by {
        reveal_strlit("\x1b[1;38;5;");
        lemma_intro_opens_control(fore);
    }
    lemma_scan_parameters(fore, digits);
    assert((fore + digits + "m"@).drop_last() =~= fore + digits);
    let back = "\x1b[1;48;5;"@;
    assert(scan_state(back) == Scan::Control && visible_width(back) == 0) by {
        reveal_strlit("\x1b[1;48;5;");
        lemma_intro_opens_control(back);
    }
    lemma_scan_parameters(back, digits);
    assert((back + digits + "m"@).drop_last() =~= back + digits);
}

/// The escape character, `[` and parameters after it open a control
/// sequence and fill no column.
proof fn lemma_intro_opens_control(intro: Seq<char>)
    requires
        intro.len() >= 2,
        intro[0] == '\x1b',
        intro[1] == '[',
        forall|i: int| 2 <= i < intro.len() ==> #[trigger] intro[i] < '@',
    ensures
        scan_state(intro) == Scan::Control,
        visible_width(intro) == 0,
{
    let head = intro.take(2);
    let tail = intro.skip(2);
    assert(head.drop_last() =~= seq!['\x1b']);
    assert(seq!['\x1b'].drop_last() =~= Seq::<char>::empty());
    reveal_with_fuel(scan_state, 3);
    reveal_with_fuel(visible_width, 3);
    assert(scan_state(head) == Scan::Control);
    assert(visible_width(head) == 0);
    lemma_scan_parameters(head, tail);
    assert(head + tail =~= intro);
}

/// The sequence that resets the colours fills no column, and ends where text
/// may follow.
pub proof fn lemma_reset_code_fills_no_column()
    ensures
        scan_state(reset_code()) == Scan::Text,
        visible_width(reset_code()) == 0,
{
    reveal_strlit("\x1b[0m");
    let code = reset_code();
    let intro = code.drop_last();
    lemma_intro_opens_control(intro);
}

/// The sequence that clears the screen fills no column, and ends where text
/// may follow.
pub proof fn lemma_clear_code_fills_no_column()
    ensures
        scan_state(clear_code()) == Scan::Text,
        visible_width(clear_code()) == 0,
{
    reveal_strlit("\x1b[2J\x1b[3J\x1b[H");
    reveal_strlit("\x1b[2J");
    reveal_strlit("\x1b[3J");
    reveal_strlit("\x1b[H");
    let (screen, scrollback, home) = ("\x1b[2J"@, "\x1b[3J"@, "\x1b[H"@);
    lemma_intro_opens_control(screen.drop_last());
    lemma_intro_opens_control(scrollback.drop_last());
    lemma_intro_opens_control(home.drop_last());
    lemma_scan_concat(screen, scrollback);
    lemma_scan_concat(screen + scrollback, home);
    assert(clear_code() =~= screen + scrollback + home);
}

/// A painted text fills the columns of the text alone, so that padding
/// treats the two alike. The text must not end inside an escape sequence
/// (the reset would else be read as part of it).
pub proof fn lemma_painted_width(text: Seq<char>, fore: u8, back: u8)
    requires
        scan_state(text) == Scan::Text,
    ensures
        visible_width(painted(text, fore, back)) == visible_width(text),
        scan_state(painted(text, fore, back)) == Scan::Text,
        forall|length: nat|
            #[trigger] padded(painted(text, fore, back), length).len() - painted(
                text,
                fore,
                back,
            ).len() == padded(text, length).len() - text.len(),
{
    lemma_colour_codes_fill_no_column(fore);
    lemma_colour_codes_fill_no_column(back);
    lemma_reset_code_fills_no_column();
    let codes = background_code(back) + foreground_code(fore);
    lemma_scan_concat(background_code(back), foreground_code(fore));
    lemma_scan_concat(codes, text);
    lemma_scan_concat(codes + text, reset_code());
}

/// A text has no more characters than its encoding has bytes.
proof fn lemma_chars_within_bytes(chars: Seq<char>)
    ensures
        chars.len() <= encode_utf8(chars).len(),
    decreases chars.len(),
{
    if chars.len() > 0 {
        lemma_chars_within_bytes(chars.drop_first());
    }
}

/// Counts the columns that a text fills on screen.
pub fn width(text: &str) -> (columns: usize)
    ensures
        columns == visible_width(text@),
{
    let bytes = text.as_bytes();
    proof {
        lemma_chars_within_bytes(text@);
    }
    assert(text@.len() <= bytes.len());
    let mut columns: usize = 0;
    let mut state = Scan::Text;
    let ghost mut scanned: int = 0;
    for c in it: text.chars()
        invariant
            it.seq() == text@,
            scanned == it.index(),
            state == scan_state(text@.take(it.index())),
            columns == visible_width(text@.take(it.index())),
            columns <= it.index() <= text@.len() <= usize::MAX,
    {
        proof {
            assert(text@.take(it.index() + 1).drop_last() =~= text@.take(it.index()));
            scanned = scanned + 1;
        }
        match state {
            Scan::Text => {
                if c == '\x1b' {
                    state = Scan::Escape;
                } else {
                    columns += 1;
                }
            },
            Scan::Escape => {
                state = if c == '[' {
                    Scan::Control
                } else {
                    Scan::Text
                };
            },
            Scan::Control => {
                if '@' <= c && c <= '~' {
                    state = Scan::Text;
                }
            },
        }
    }
    assert(text@.take(scanned) =~= text@);
    columns
}

/// Pads a text with spaces on the right until it fills `length` columns on
/// screen, as [`visible_width`] counts them: escape sequences in the text
/// count for nothing, and a character counts once however many bytes encode
/// it. A text that fills the columns already is returned as it is.
pub fn pad(text: &str, length: usize) -> (out: String)
    ensures
        out@ == padded(text@, length as nat),
{
    let columns = width(text);
    let mut out = String::from_str(text);
    if length > columns {
        let missing = length - columns;
        let mut i: usize = 0;
        while i < missing
            invariant
                i <= missing,
                out@ == text@ + spaces(i as nat),
            decreases missing - i,
        {
            proof {
                reveal_strlit(" ");
                assert(spaces(i as nat) + " "@ =~= spaces((i + 1) as nat));
            }
            out.append(" ");
            i += 1;
        }
    }
    out
}

} // verus!
