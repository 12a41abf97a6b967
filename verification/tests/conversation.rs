use uefi_serial_chat::conversation::Conversation;
use uefi_serial_chat::helpers::ChatParticipant::{Local, Remote};

#[test]
fn nothing_was_said_yet() {
    assert_eq!(Conversation::new().screen(), "[ LOCAL]: \n[REMOTE]: ");
}

#[test]
fn messages_stand_in_the_order_of_submission() {
    let mut conversation = Conversation::new();
    conversation.hear(Local, "first");
    conversation.hear(Remote, "second\r");
    assert_eq!(conversation.screen(), "[REMOTE]: second\n[ LOCAL]: first\n[REMOTE]: ");
    conversation.hear(Local, "\nthird\n\nfif");
    assert_eq!(
        conversation.screen(),
        "[REMOTE]: second\n[ LOCAL]: first\n[ LOCAL]: third\n[ LOCAL]: \n[ LOCAL]: fif\n[REMOTE]: "
    );
}

#[test]
fn hearing_ignores_cuts() {
    let text = "a\r\nb\rc\n\rd\x08e";
    let mut whole = Conversation::new();
    whole.hear(Remote, text);
    assert_eq!(
        whole.screen(),
        "[REMOTE]: a\n[REMOTE]: b\n[REMOTE]: c\n[REMOTE]: \n[ LOCAL]: \n[REMOTE]: e"
    );
    for cut in 0..text.len() {
        let mut pieces = Conversation::new();
        pieces.hear(Remote, &text[..cut]);
        pieces.hear(Remote, &text[cut..]);
        assert_eq!(pieces.screen(), whole.screen());
    }
}

#[test]
fn erased_characters_are_not_shown_while_typing() {
    let mut conversation = Conversation::new();
    conversation.hear(Local, "\x7fab\x08\tc\x7f\x7fd\u{e9}");
    assert_eq!(conversation.screen(), "[ LOCAL]: d\u{e9}\n[REMOTE]: ");
}

#[test]
fn submitted_lines_are_stripped() {
    let mut conversation = Conversation::new();
    conversation.hear(Remote, "Hello, \x08 \x08\x7fworld!\r");
    assert_eq!(conversation.screen(), "[REMOTE]: Hello, world!\n[ LOCAL]: \n[REMOTE]: ");
}
