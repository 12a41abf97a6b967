use uefi_serial_chat::echo::{count_erases, count_visible, spell_out_erases, to_device_text};
use uefi_serial_chat::helpers::{string_limit_backspaces, strip_backspaces};

#[test]
fn visible_characters_are_those_that_std_calls_no_control() {
    let mut n: usize = 0;
    for c in '\0'..=char::MAX {
        let mut text = String::new();
        text.push(c);
        let expected = if c.is_control() { 0 } else { 1 };
        assert_eq!(count_visible(&text), expected, "{c:?}");
        n += expected;
    }
    assert_eq!(n, 0x11_0000 - 0x800 - 65);
    assert_eq!(count_visible("a\x08\u{e9}\r\n\u{1f600}\x7f"), 3);
}

#[test]
fn erase_characters_are_counted() {
    assert_eq!(count_erases("a\x08\x7fb\x08\t"), 3);
    assert_eq!(count_erases(""), 0);
}

#[test]
fn devices_get_carriage_returns() {
    assert_eq!(to_device_text("a\nb\n"), "a\r\nb\r\n");
    assert_eq!(to_device_text("a\r\n"), "a\r\r\n");
    assert_eq!(to_device_text("\n\n"), "\r\n\r\n");
    assert_eq!(to_device_text("\u{e9}"), "\u{e9}");
}

#[test]
fn every_line_feed_follows_a_carriage_return() {
    let text = to_device_text("x\n\r\n\n");
    let chars: Vec<char> = text.chars().collect();
    for (i, c) in chars.iter().enumerate() {
        if *c == '\n' {
            assert_eq!(chars[i - 1], '\r');
        }
    }
}

#[test]
fn terminals_get_erase_sequences() {
    assert_eq!(spell_out_erases("ab\x7f"), "ab\x08 \x08");
    assert_eq!(spell_out_erases("\x08\x7f"), "\x08 \x08\x08 \x08");
    assert_eq!(spell_out_erases("\u{e9} "), "\u{e9} ");
}

#[test]
fn strip_undoes_spelling_out() {
    for text in ["a\x7f b\x08", "\x08 \x08", "\x7f\x7f", "plain"] {
        let shown = spell_out_erases(text);
        let kept: String = text.chars().filter(|c| *c != '\x08' && *c != '\x7f').collect();
        assert_eq!(strip_backspaces(shown), kept);
    }
}

#[test]
fn limiting_leaves_the_allowed_number() {
    let text = "\x7fa\x08b\x7f\x7f";
    for allowed in 0usize..6 {
        let limited = string_limit_backspaces(String::from(text), allowed);
        assert_eq!(count_erases(&limited), allowed.min(4));
        assert_eq!(count_visible(&limited), 2);
    }
    assert_eq!(string_limit_backspaces(String::from(text), 4), text);
}
