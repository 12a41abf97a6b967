use uefi_serial_chat::helpers::{
    find_first_linebreak, format_chat_message, string_limit_backspaces, strip_backspaces, ChatParticipant,
};

#[test]
fn test_string_limit_backspaces() {
    assert_eq!(string_limit_backspaces(String::from("Hello, world!"), 0), "Hello, world!");
    assert_eq!(string_limit_backspaces(String::from("Hello, world!"), 5), "Hello, world!");

    assert_eq!(
        string_limit_backspaces(String::from("Hello, \x7fw\x7fo\x7fr\x7fl\x7fd\x7f!"), 10),
        "Hello, \x7fw\x7fo\x7fr\x7fl\x7fd\x7f!"
    );
    assert_eq!(
        string_limit_backspaces(String::from("Hello, \x7fw\x7fo\x7fr\x7fl\x7fd\x7f!"), 1),
        "Hello, \x7fworld!"
    );
    assert_eq!(
        string_limit_backspaces(String::from("Hello, \x7fw\x7fo\x7fr\x7fl\x7fd\x7f!"), 0),
        "Hello, world!"
    );
    assert_eq!(string_limit_backspaces(String::from("\x7fH\x7f\x7f"), 0), "H");
    assert_eq!(string_limit_backspaces(String::from("\x7fH\x7f\x7f"), 2), "\x7fH\x7f");
    assert_eq!(string_limit_backspaces(String::from("\x7fH\x7f\x7f"), 3), "\x7fH\x7f\x7f");
}

#[test]
fn test_strip_backspaces() {
    assert_eq!(strip_backspaces(String::from("Hello, world!")), "Hello, world!");
    assert_eq!(strip_backspaces(String::from("Hello, \x08 \x08world!")), "Hello, world!");
    assert_eq!(strip_backspaces(String::from("Hello, \x08 \x08\x08world!")), "Hello, world!");
    assert_eq!(strip_backspaces(String::from("Hello, \x08 \x08\x7fworld!")), "Hello, world!");
    assert_eq!(strip_backspaces(String::from("Hello, \x7f\x08 \x08w\x7forld!")), "Hello, world!");
}

#[test]
fn test_hello() {
    println!("Hello, world!");
}

#[test]
fn limit_counts_both_erase_characters() {
    assert_eq!(string_limit_backspaces(String::from("\x08a\x7fb\x08"), 2), "\x08a\x7fb");
    assert_eq!(string_limit_backspaces(String::new(), 3), "");
    assert_eq!(string_limit_backspaces(String::from("\u{e9}\x7f\u{1f600}\x7f"), 1), "\u{e9}\x7f\u{1f600}");
}

#[test]
fn strip_finds_sequences_from_the_left() {
    // The second backspace belongs to the first sequence.
    assert_eq!(strip_backspaces(String::from("a\x08 \x08 \x08b")), "a b");
    assert_eq!(strip_backspaces(String::from("\x08 ")), " ");
    assert_eq!(strip_backspaces(String::from("\x08  \x08")), "  ");
    assert_eq!(strip_backspaces(String::from("\x7f\x08\x7f")), "");
    assert_eq!(strip_backspaces(String::new()), "");
}

#[test]
fn strip_twice_is_strip_once() {
    let once = strip_backspaces(String::from("\x08\x08 \x08 \x08x\x7f"));
    assert_eq!(strip_backspaces(once.clone()), once);
}

#[test]
fn linebreak_positions_are_in_bytes() {
    assert_eq!(find_first_linebreak(""), None);
    assert_eq!(find_first_linebreak("hello"), None);
    assert_eq!(find_first_linebreak("hello\r\nworld\n"), Some(5));
    assert_eq!(find_first_linebreak("hello\nworld\r"), Some(5));
    assert_eq!(find_first_linebreak("\rworld\n"), Some(0));
    assert_eq!(find_first_linebreak("\u{e9}\u{20ac}\u{1f600}\n"), Some(9));
}

#[test]
fn chat_messages_line_up() {
    assert_eq!(format_chat_message(ChatParticipant::Local, "hi"), "[ LOCAL]: hi");
    assert_eq!(format_chat_message(ChatParticipant::Remote, "hi"), "[REMOTE]: hi");
    assert_eq!(format_chat_message(ChatParticipant::Remote, ""), "[REMOTE]: ");
}
