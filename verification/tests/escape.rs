use debug_et_diagnostics::color::escape::width;
use debug_et_diagnostics::{ansi, ansi_clear, bg, bgfg, fg, fore, pad, reset};

#[test]
fn fg_selects_the_foreground_without_reset() {
    assert_eq!(fg("x", 5), "\x1b[1;38;5;5mx");
    assert_eq!(fg("text", 231), "\x1b[1;38;5;231mtext");
    assert_eq!(fg("", 0), "\x1b[1;38;5;0m");
    assert_eq!(fg("x", 255), "\x1b[1;38;5;255mx");
}

#[test]
fn bg_selects_the_background_without_reset() {
    assert_eq!(bg("x", 5), "\x1b[1;48;5;5mx");
    assert_eq!(bg("text", 16), "\x1b[1;48;5;16mtext");
    assert_eq!(bg("", 100), "\x1b[1;48;5;100m");
}

#[test]
fn colours_above_255_are_wrapped() {
    assert_eq!(fg("x", 256), "\x1b[1;38;5;205mx");
    assert_eq!(bg("x", 1000), "\x1b[1;48;5;8mx");
    assert_eq!(ansi("x", 300, 1000), "\x1b[1;48;5;8m\x1b[1;38;5;205mx\x1b[0m");
}

#[test]
fn reset_appends_the_reset_sequence() {
    assert_eq!(reset("x"), "x\x1b[0m");
    assert_eq!(reset(""), "\x1b[0m");
    assert_eq!(reset("\x1b[1;38;5;5mx"), "\x1b[1;38;5;5mx\x1b[0m");
}

#[test]
fn bgfg_puts_the_background_first() {
    assert_eq!(bgfg("x", 5, 7), "\x1b[1;48;5;7m\x1b[1;38;5;5mx");
    assert_eq!(bgfg("x", 5, 7), bg(&fg("x", 5), 7));
}

#[test]
fn ansi_resets_after_the_text() {
    assert_eq!(ansi("x", 5, 7), "\x1b[1;48;5;7m\x1b[1;38;5;5mx\x1b[0m");
    assert_eq!(ansi(" @ ", 220, 16), "\x1b[1;48;5;16m\x1b[1;38;5;220m @ \x1b[0m");
    assert_eq!(ansi("x", 5, 7), reset(&bgfg("x", 5, 7)));
}

#[test]
fn ansi_clear_is_the_clear_sequence() {
    assert_eq!(ansi_clear(), "\x1b[2J\x1b[3J\x1b[H");
}

#[test]
fn width_counts_characters_outside_escape_sequences() {
    assert_eq!(width(""), 0);
    assert_eq!(width("ab"), 2);
    assert_eq!(width("héllo"), 5);
    assert_eq!(width("日本"), 2);
    assert_eq!(width("\x1b[1;38;5;5mx"), 1);
    assert_eq!(width(&fore("<", 7)), 1);
    assert_eq!(width(&ansi("text", 5, 7)), 4);
    assert_eq!(width(&ansi_clear()), 0);
    assert_eq!(width("a\x1bcb"), 2);
    assert_eq!(width("\x1b"), 0);
    assert_eq!(width("\x1b["), 0);
    assert_eq!(width("\x1b[12"), 0);
    assert_eq!(width("\x1b[0m\x1b[0m"), 0);
    assert_eq!(width("a\x1b[0mb\x1b[0mc"), 3);
}

#[test]
fn pad_fills_up_with_spaces() {
    assert_eq!(pad("ab", 4), "ab  ");
    assert_eq!(pad("", 3), "   ");
    assert_eq!(pad("ab", 0), "ab");
    assert_eq!(pad("ab", 2), "ab");
    assert_eq!(pad("abc", 2), "abc");
    assert_eq!(pad("", 0), "");
}

#[test]
fn pad_does_not_count_escape_sequences() {
    assert_eq!(pad("\x1b[1;38;5;5mx", 3), "\x1b[1;38;5;5mx  ");
    assert_eq!(pad(&ansi("ab", 5, 7), 4), format!("{}  ", ansi("ab", 5, 7)));
    assert_eq!(pad(&ansi("abcd", 5, 7), 4), ansi("abcd", 5, 7));
}

#[test]
fn pad_counts_characters_not_bytes() {
    assert_eq!(pad("héllo", 7), "héllo  ");
    assert_eq!(pad("日本", 3), "日本 ");
    assert_eq!(pad("héllo", 5), "héllo");
}

#[test]
fn a_painted_text_fills_the_columns_of_the_text() {
    for text in ["", "x", "text", "héllo", "a b c"] {
        for (fore_index, back_index) in [(0usize, 0usize), (5, 7), (231, 16), (255, 255), (300, 1000)] {
            let painted = ansi(text, fore_index, back_index);
            assert_eq!(width(&painted), width(text));
            assert_eq!(
                pad(&painted, 10).len() - painted.len(),
                pad(text, 10).len() - text.len()
            );
        }
    }
}
