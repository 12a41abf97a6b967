use uefi_raw::Status;
use uefi_serial_chat::backend::{
    all_keys_valid, ChatBackend, ConsoleBackend, DeviceError, Key, SerialBackend, WriteProgress,
};

fn timeout(count: usize) -> Result<(), DeviceError> {
    Err(DeviceError { status: Status::TIMEOUT.0, count })
}

fn broken(count: usize) -> Result<(), DeviceError> {
    Err(DeviceError { status: Status::DEVICE_ERROR.0, count })
}

#[test]
fn keys_type_text() {
    let mut console = ConsoleBackend::new();
    let keys = vec![Key::Printable(0x61), Key::Special(0x17), Key::Printable(0x20ac), Key::Printable(0x0d)];
    assert_eq!(console.poll(&keys), "a\u{20ac}\r");
    assert_eq!(console.poll(&vec![]), "");
    assert_eq!(console.poll(&vec![Key::Printable(0xd7ff), Key::Printable(0xe000)]), "\u{d7ff}\u{e000}");
    assert_eq!(console.read_buffer(), "a\u{20ac}\r\u{d7ff}\u{e000}");
    console.clear_buffer();
    assert_eq!(console.read_buffer(), "");
}

#[test]
fn surrogates_are_no_characters() {
    assert!(all_keys_valid(&vec![Key::Printable(0xd7ff), Key::Special(0xd800), Key::Printable(0xe000)]));
    assert!(!all_keys_valid(&vec![Key::Printable(0x61), Key::Printable(0xd800)]));
    assert!(!all_keys_valid(&vec![Key::Printable(0xdfff)]));
}

#[test]
fn console_shows_backspaces_as_they_are() {
    let console = ConsoleBackend::new();
    assert_eq!(console.normalize_backspaces(String::from("a\x08\x7f")), "a\x08\x7f");
    assert_eq!(ConsoleBackend::write_str("a\n"), "a\r\n");
}

#[test]
fn serial_shows_backspaces_as_sequences() {
    let serial = SerialBackend::new();
    assert_eq!(serial.normalize_backspaces(String::from("a\x08\x7f")), "a\x08 \x08\x08 \x08");
}

#[test]
fn serial_read_takes_what_was_filled() {
    let mut serial = SerialBackend::new();
    assert_eq!(serial.poll(b"abcd", Ok(())), Ok(String::from("abcd")));
    assert_eq!(serial.poll(b"efgh", timeout(2)), Ok(String::from("ef")));
    assert_eq!(serial.poll(b"ijkl", timeout(0)), Ok(String::new()));
    assert_eq!(serial.read_buffer(), "abcdef");
}

#[test]
fn serial_read_failure_changes_nothing() {
    let mut serial = SerialBackend::new();
    assert_eq!(serial.poll(b"a\xc3", Ok(())), Ok(String::from("a")));
    assert_eq!(serial.poll(b"\xa9\xa9", broken(1)), Err(broken(1).unwrap_err()));
    assert_eq!(serial.read_buffer(), "a");
    assert_eq!(serial.poll(b"\xa9b", Ok(())), Ok(String::from("\u{e9}b")));
    assert_eq!(serial.read_buffer(), "a\u{e9}b");
}

#[test]
fn clearing_forgets_partial_characters() {
    let mut serial = SerialBackend::new();
    assert_eq!(serial.poll(b"a\xc3", Ok(())), Ok(String::from("a")));
    serial.clear_buffer();
    assert_eq!(serial.read_buffer(), "");
    assert_eq!(serial.poll(b"b", Ok(())), Ok(String::from("b")));
}

#[test]
fn buffers_can_be_changed_in_place() {
    let mut serial = SerialBackend::new();
    assert_eq!(serial.poll(b"ab", Ok(())), Ok(String::from("ab")));
    serial.read_buffer_mut().push('c');
    assert_eq!(serial.read_buffer(), "abc");
}

#[test]
fn serial_write_offers_the_rest_after_a_timeout() {
    let mut write = SerialBackend::write_str("h\u{e9}\n");
    assert_eq!(write.attempt(), b"h\xc3\xa9\r\n");
    assert_eq!(write.unconfirmed(), 5);
    assert!(write.accepts(&timeout(5)));
    assert!(!write.accepts(&timeout(6)));
    assert!(write.accepts(&broken(6)));
    assert_eq!(write.outcome(timeout(2)), WriteProgress::Again);
    assert_eq!(write.unconfirmed(), 3);
    assert_eq!(write.attempt(), b"\xa9\r\n");
    assert!(!write.accepts(&timeout(4)));
    assert_eq!(write.outcome(timeout(0)), WriteProgress::Again);
    assert_eq!(write.attempt(), b"\xa9\r\n");
    assert_eq!(write.outcome(Ok(())), WriteProgress::Done);
    assert_eq!(write.unconfirmed(), 0);
    assert_eq!(write.attempt(), b"");
}

#[test]
fn each_byte_is_sent_once() {
    let mut write = SerialBackend::write_str("abcd");
    let mut taken: Vec<u8> = Vec::new();
    for count in [2, 0, 1] {
        taken.extend_from_slice(&write.attempt()[..count]);
        assert_eq!(write.outcome(timeout(count)), WriteProgress::Again);
    }
    taken.extend_from_slice(write.attempt());
    assert_eq!(write.outcome(Ok(())), WriteProgress::Done);
    assert_eq!(taken, b"abcd");
}

#[test]
fn serial_write_gives_up_on_other_errors() {
    let mut write = SerialBackend::write_str("x");
    assert_eq!(
        write.outcome(broken(9)),
        WriteProgress::Failed(DeviceError { status: Status::DEVICE_ERROR.0, count: 9 })
    );
}

#[test]
fn clearing_the_terminal_is_an_escape_sequence() {
    assert_eq!(SerialBackend::clear_screen().attempt(), b"\x1b[H\x1b[2J\x1b[3J");
}
