use uefi_raw::Status;
use uefi_serial_chat::actions::{
    _prompt_user_for_value, announcement, answered, ask, broadcast, handle_line, prompt_user,
    prompt_user_for_value, select_serial_handle, take_line, take_text, Answer, ChatError,
    PromptStep, Question, Task,
};
use uefi_serial_chat::backend::{ChatBackend, ConsoleBackend, DeviceError, Key, SerialBackend};
use uefi_serial_chat::chat::{firmware_line, start_chat, Action, Event, Firmware, Session, STALL_MILLIS};
use uefi_serial_chat::helpers::ChatParticipant::{self, Local, Remote};

fn keys(text: &str) -> Vec<Key> {
    text.encode_utf16().map(Key::Printable).collect()
}

fn received(bytes: &[u8]) -> Event {
    let mut buf = bytes.to_vec();
    buf.resize(16, 0);
    Event::Received(buf, Err(DeviceError { status: Status::TIMEOUT.0, count: bytes.len() }))
}

fn firmware() -> Firmware {
    Firmware { revision: 0x0002_0046, vendor: String::from("ACME"), version: 65536 }
}

fn shown(action: &Action) -> String {
    format!("{action:?}")
}

fn write(who: ChatParticipant, text: &str) -> String {
    shown(&Action::Write(who, String::from(text)))
}

/// Performs one action, which has to be the expected one.
fn step(session: &mut Session, expected: String, event: Event) {
    assert_eq!(shown(&session.action()), expected);
    assert!(session.expects(&event));
    session.advance(event);
}

fn done(session: &mut Session, expected: String) {
    step(session, expected, Event::Done);
}

fn poll(who: ChatParticipant) -> String {
    shown(&Action::Poll(who))
}

/// Both screens are drawn.
fn drawn(session: &mut Session, screen: &str) {
    done(session, shown(&Action::ClearScreen(Local)));
    done(session, shown(&Action::ClearScreen(Remote)));
    done(session, write(Local, screen));
    done(session, write(Remote, screen));
}

/// Both partners are listened to for a moment.
fn round(session: &mut Session, local: &str, remote: &[u8]) {
    step(session, poll(Local), Event::Keys(keys(local)));
    step(session, poll(Remote), received(remote));
    done(session, shown(&Action::Stall(STALL_MILLIS)));
}

fn tasks(list: &[Task]) -> Vec<String> {
    list.iter().map(|task| format!("{task:?}")).collect()
}

/// A session in which the question for the device was just put.
fn at_device_question() -> Session {
    let mut session = start_chat(2, &firmware()).unwrap();
    let heading = "Available handles supporting the SERIAL_IO protocol:\n";
    done(&mut session, write(Local, heading));
    step(&mut session, shown(&Action::Describe(0)), Event::Described(String::from("Uart(1)")));
    done(&mut session, write(Local, "[0]: Uart(1)\n"));
    step(&mut session, shown(&Action::Describe(1)), Event::Described(String::from("Uart(2)")));
    done(&mut session, write(Local, "[1]: Uart(2)\n"));
    done(&mut session, write(Local, "Please select a handle (0, 1, 2, ...): "));
    session
}

/// A session in which the first device was chosen and the screens are clear.
fn at_welcome() -> Session {
    let mut session = at_device_question();
    step(&mut session, poll(Local), Event::Keys(keys("0\r")));
    done(&mut session, write(Local, "0\r"));
    done(&mut session, write(Local, "\n"));
    done(&mut session, shown(&Action::Open(0)));
    done(&mut session, shown(&Action::ClearScreen(Local)));
    step(&mut session, poll(Local), Event::Keys(keys("left over\r")));
    done(&mut session, shown(&Action::ClearScreen(Remote)));
    step(&mut session, poll(Remote), received(b"left over\xc3"));
    session
}

fn broadcast_done(session: &mut Session, text: &str) {
    done(session, write(Local, text));
    done(session, write(Remote, text));
}

/// A session in which the local user is asked for a name.
fn at_local_name() -> Session {
    let mut session = at_welcome();
    broadcast_done(&mut session, "Welcome to UEFI Serial Chat\n");
    broadcast_done(&mut session, "UEFI revision=2.7, vendor=ACME, version=65536\n");
    broadcast_done(&mut session, "Chat will begin shortly ...\n");
    done(&mut session, write(Remote, "Other user is selecting their name, please wait ...\n"));
    done(&mut session, write(Local, "Choose your username: "));
    session
}

/// A session in which the remote user is asked for a name.
fn at_remote_name() -> Session {
    let mut session = at_local_name();
    step(&mut session, poll(Local), Event::Keys(keys("bo\x08b\r")));
    done(&mut session, write(Local, "bo\x08b\r"));
    done(&mut session, write(Local, "\n"));
    broadcast_done(&mut session, "Local machine chose username : 'bob'\n");
    done(&mut session, write(Local, "Other user is selecting their name, please wait ...\n"));
    done(&mut session, write(Remote, "Choose your username: "));
    session
}

#[test]
fn no_device_no_chat() {
    let err = start_chat(0, &firmware()).unwrap_err();
    assert_eq!(err, ChatError::NoSerialHandle);
    assert_eq!(err.message().unwrap(), "No Serial handle available!");
}

#[test]
fn nothing_to_select_fails_after_the_heading() {
    let list = select_serial_handle(0);
    assert_eq!(
        tasks(&list),
        tasks(&[
            Task::Write(Local, String::from("Available handles supporting the SERIAL_IO protocol:\n")),
            Task::Fail(ChatError::NoHandles),
        ])
    );
    assert_eq!(ChatError::NoHandles.message().unwrap(), "no handles available!");
    assert_eq!(ChatError::ActionFailed.message(), None);
}

#[test]
fn selecting_lists_every_device() {
    let list = select_serial_handle(3);
    assert_eq!(
        tasks(&list),
        tasks(&[
            Task::Write(Local, String::from("Available handles supporting the SERIAL_IO protocol:\n")),
            Task::Describe(0),
            Task::Describe(1),
            Task::Describe(2),
            Task::Write(Local, String::from("Please select a handle (0, 1, 2, ...): ")),
            Task::Read(Local, Question::Handle, 0),
        ])
    );
}

#[test]
fn whole_chat_from_start_to_round() {
    let mut session = at_remote_name();
    step(&mut session, poll(Remote), received(b"j\xc3"));
    done(&mut session, write(Remote, "j"));
    done(&mut session, shown(&Action::Stall(16)));
    step(&mut session, poll(Remote), received(b"\xb6x\x7f"));
    done(&mut session, write(Remote, "\u{f6}x\x08 \x08"));
    done(&mut session, shown(&Action::Stall(STALL_MILLIS)));
    step(&mut session, poll(Remote), received(b"rg\r\nignored"));
    done(&mut session, write(Remote, "rg\r\nignored"));
    done(&mut session, write(Remote, "\n"));
    broadcast_done(&mut session, "Remote machine chose username: 'j\u{f6}xrg'\n");
    drawn(&mut session, "[ LOCAL]: \n[REMOTE]: ");
    for _ in 0..3 {
        round(&mut session, "", b"");
    }
    round(&mut session, "hi", b"");
    drawn(&mut session, "[ LOCAL]: hi\n[REMOTE]: ");
    round(&mut session, " there\r", b"he");
    drawn(&mut session, "[ LOCAL]: hi there\n[ LOCAL]: \n[REMOTE]: he");
    round(&mut session, "", b"y\xc3");
    drawn(&mut session, "[ LOCAL]: hi there\n[ LOCAL]: \n[REMOTE]: hey");
    round(&mut session, "", b"");
    round(&mut session, "", b"\xa9\r");
    drawn(&mut session, "[ LOCAL]: hi there\n[REMOTE]: hey\u{e9}\n[ LOCAL]: \n[REMOTE]: ");
    // The line feed belongs to the carriage return before.
    round(&mut session, "", b"\n");
    round(&mut session, "1\r2\r3", b"");
    drawn(
        &mut session,
        "[ LOCAL]: hi there\n[REMOTE]: hey\u{e9}\n[ LOCAL]: 1\n[ LOCAL]: 2\n[ LOCAL]: 3\n[REMOTE]: ",
    );
    step(&mut session, poll(Local), Event::Failed);
    assert_eq!(shown(&session.action()), shown(&Action::Fail(ChatError::ActionFailed)));
}

#[test]
fn serial_failure_ends_the_chat_itself() {
    let mut session = at_remote_name();
    step(&mut session, poll(Remote), received(b"eve\r"));
    done(&mut session, write(Remote, "eve\r"));
    done(&mut session, write(Remote, "\n"));
    broadcast_done(&mut session, "Remote machine chose username: 'eve'\n");
    drawn(&mut session, "[ LOCAL]: \n[REMOTE]: ");
    step(&mut session, poll(Local), Event::Keys(keys("x")));
    let err = DeviceError { status: Status::DEVICE_ERROR.0, count: 0 };
    step(&mut session, poll(Remote), Event::Received(vec![0; 16], Err(err)));
    assert_eq!(shown(&session.action()), shown(&Action::Fail(ChatError::Device(err))));
}

#[test]
fn number_of_no_device_ends_the_chat() {
    let mut session = at_device_question();
    step(&mut session, poll(Local), Event::Keys(keys("2\r")));
    done(&mut session, write(Local, "2\r"));
    done(&mut session, write(Local, "\n"));
    assert_eq!(shown(&session.action()), shown(&Action::Fail(ChatError::NoSuchHandle(2))));
    assert_eq!(ChatError::NoSuchHandle(2).message().unwrap(), "no handle with this number!");
}

#[test]
fn failed_echo_ends_the_chat() {
    let mut session = at_device_question();
    step(&mut session, poll(Local), Event::Keys(keys("1\r")));
    step(&mut session, write(Local, "1\r"), Event::Failed);
    assert_eq!(shown(&session.action()), shown(&Action::Fail(ChatError::ActionFailed)));
    let mut session = at_device_question();
    step(&mut session, poll(Local), Event::Keys(keys("1\r")));
    done(&mut session, write(Local, "1\r"));
    step(&mut session, write(Local, "\n"), Event::Failed);
    assert_eq!(shown(&session.action()), shown(&Action::Fail(ChatError::ActionFailed)));
}

#[test]
fn asks_again_until_the_answer_is_a_number() {
    let mut session = at_device_question();
    step(&mut session, poll(Local), Event::Keys(keys("x\r")));
    done(&mut session, write(Local, "x\r"));
    done(&mut session, write(Local, "\n"));
    done(&mut session, write(Local, "Please select a handle (0, 1, 2, ...): "));
    step(&mut session, poll(Local), Event::Keys(keys("1")));
    done(&mut session, write(Local, "1"));
    done(&mut session, shown(&Action::Stall(16)));
    step(&mut session, poll(Local), Event::Keys(vec![]));
    done(&mut session, write(Local, ""));
    done(&mut session, shown(&Action::Stall(16)));
    step(&mut session, poll(Local), Event::Keys(keys("\n")));
    done(&mut session, write(Local, "\n"));
    done(&mut session, write(Local, "\n"));
    assert_eq!(shown(&session.action()), shown(&Action::Open(1)));
}

#[test]
fn failure_ends_the_chat() {
    let mut session = at_welcome();
    step(&mut session, write(Local, "Welcome to UEFI Serial Chat\n"), Event::Failed);
    assert_eq!(shown(&session.action()), shown(&Action::Fail(ChatError::ActionFailed)));
    assert!(!session.expects(&Event::Done));
    assert!(!session.expects(&Event::Failed));
}

#[test]
fn serial_failure_ends_the_chat() {
    let mut session = at_remote_name();
    let err = DeviceError { status: Status::DEVICE_ERROR.0, count: 0 };
    step(&mut session, poll(Remote), Event::Received(vec![0; 16], Err(err)));
    assert_eq!(shown(&session.action()), shown(&Action::Fail(ChatError::Device(err))));
}

#[test]
fn events_have_to_fit() {
    let session = at_device_question();
    assert!(session.expects(&Event::Keys(vec![])));
    assert!(session.expects(&Event::Failed));
    assert!(!session.expects(&Event::Keys(vec![Key::Printable(0xd800)])));
    assert!(!session.expects(&Event::Done));
    assert!(!session.expects(&received(b"")));
    assert!(!session.expects(&Event::Described(String::new())));
    let session = at_remote_name();
    let too_many = Err(DeviceError { status: Status::TIMEOUT.0, count: 3 });
    assert!(!session.expects(&Event::Received(vec![0; 2], too_many)));
    assert!(session.expects(&Event::Received(vec![0; 3], too_many)));
    assert!(!session.expects(&Event::Keys(vec![])));
}

#[test]
fn broadcast_reaches_partners_in_order() {
    let list = broadcast("hi", &[Remote, Local, Remote]);
    assert_eq!(
        tasks(&list),
        tasks(&[
            Task::Write(Remote, String::from("hi")),
            Task::Write(Local, String::from("hi")),
            Task::Write(Remote, String::from("hi")),
        ])
    );
    assert_eq!(tasks(&broadcast("hi", &[])), Vec::<String>::new());
}

#[test]
fn answers_lead_on() {
    assert_eq!(tasks(&answered(8, Local, Question::Handle, "7")), tasks(&[Task::Open(7)]));
    assert_eq!(
        tasks(&answered(7, Local, Question::Handle, "7")),
        tasks(&[Task::Fail(ChatError::NoSuchHandle(7))])
    );
    assert_eq!(tasks(&answered(8, Local, Question::Handle, "")), tasks(&ask(Local, Question::Handle)));
    assert_eq!(
        tasks(&answered(1, Remote, Question::Username, "eve")),
        tasks(&broadcast("Remote machine chose username: 'eve'\n", &[Local, Remote]))
    );
    assert_eq!(announcement(Local, ""), "Local machine chose username : ''\n");
}

#[test]
fn values_are_taken_or_asked_for_again() {
    assert!(matches!(prompt_user_for_value("12"), Answer::Value(12)));
    assert!(matches!(prompt_user_for_value("12 "), Answer::AskAgain));
    assert!(matches!(_prompt_user_for_value::<char, ()>(Ok('x')), Answer::Value('x')));
    assert!(matches!(_prompt_user_for_value::<char, u8>(Err(1)), Answer::AskAgain));
}

#[test]
fn listed_number_opens_the_device() {
    for i in [0, 1, 10, 123] {
        let line = handle_line(i, "path");
        let end = line.find(']').unwrap();
        assert_eq!(line, format!("[{i}]: path\n"));
        assert_eq!(tasks(&answered(124, Local, Question::Handle, &line[1..end])), tasks(&[Task::Open(i)]));
    }
}

#[test]
fn firmware_revisions_are_shown_in_two_styles() {
    let line = |revision: u32| {
        firmware_line(&Firmware { revision, vendor: String::from("v"), version: 0 })
    };
    assert_eq!(line(0x0001_0002), "UEFI revision=1.02, vendor=v, version=0\n");
    assert_eq!(line(0x0001_000a), "UEFI revision=1.10, vendor=v, version=0\n");
    assert_eq!(line(0x0002_0000), "UEFI revision=2.0, vendor=v, version=0\n");
    assert_eq!(line(0x0002_001f), "UEFI revision=2.3.1, vendor=v, version=0\n");
    assert_eq!(line(0x0002_0064), "UEFI revision=2.10, vendor=v, version=0\n");
    assert_eq!(line(0xffff_ffff), "UEFI revision=65535.6553.5, vendor=v, version=0\n");
    assert_eq!(line(0x0000_ffff), "UEFI revision=0.65535, vendor=v, version=0\n");
}

fn pending(step: PromptStep) -> (String, usize) {
    match step {
        PromptStep::Pending { echo, visible_chars_n } => (echo, visible_chars_n),
        other => panic!("{other:?}"),
    }
}

fn complete(step: PromptStep) -> String {
    match step {
        PromptStep::Complete { echo } => echo,
        other => panic!("{other:?}"),
    }
}

#[test]
fn prompt_erases_no_more_than_was_typed() {
    let mut console = ConsoleBackend::new();
    let text = console.poll(&keys("ab\x08\x08\x08"));
    assert_eq!(pending(prompt_user(&console, 0, text)), (String::from("ab\x08\x08"), 0));
    let text = console.poll(&keys("\x7f\x08"));
    assert_eq!(pending(prompt_user(&console, 0, text)), (String::new(), 0));
    let text = console.poll(&keys("cd\t\x7f"));
    assert_eq!(pending(prompt_user(&console, 0, text)), (String::from("cd\t\x7f"), 1));
    let text = console.poll(&keys("\x7f\x7fe"));
    assert_eq!(pending(prompt_user(&console, 1, text)), (String::from("\x7fe"), 1));
    assert_eq!(console.read_buffer(), "ab\x08\x08\x08\x7f\x08cd\t\x7f\x7f\x7fe");
}

#[test]
fn prompt_balance_over_rounds() {
    let mut console = ConsoleBackend::new();
    let mut visible: usize = 0;
    let mut typed: usize = 0;
    let mut erased: usize = 0;
    for round in ["abc", "\x08\x08", "", "d\x7f\x7f\x7f", "\x7f", "ef\x08g"] {
        let text = console.poll(&keys(round));
        let (echo, n) = pending(prompt_user(&console, visible, text));
        visible = n;
        typed += round.chars().filter(|c| !c.is_control()).count();
        erased += echo.chars().filter(|c| *c == '\x08' || *c == '\x7f').count();
        assert_eq!(visible + erased, typed);
    }
    assert_eq!((visible, erased, typed), (2, 5, 7));
}

#[test]
fn erase_before_its_character_is_not_shown() {
    let mut console = ConsoleBackend::new();
    let text = console.poll(&keys("\x7fH"));
    assert_eq!(pending(prompt_user(&console, 0, text)), (String::from("H"), 1));
    let text = console.poll(&keys("\x7f\x08\x08a\x7f\x7f\r"));
    assert_eq!(complete(prompt_user(&console, 1, text)), "\x7fa\x7f\r");
}

#[test]
fn prompt_ignores_cuts() {
    let input = "ab\x08\x08\x7fc\td\x7f\x7f\x7fe";
    let console = ConsoleBackend::new();
    let whole = pending(prompt_user(&console, 0, String::from(input)));
    assert_eq!(whole, (String::from("ab\x08\x08c\td\x7f\x7fe"), 1));
    for cut in 0..input.len() {
        let (first, visible) = pending(prompt_user(&console, 0, String::from(&input[..cut])));
        let (second, visible) = pending(prompt_user(&console, visible, String::from(&input[cut..])));
        assert_eq!((first + &second, visible), whole);
    }
}

#[test]
fn prompt_completes_a_line() {
    let mut serial = SerialBackend::new();
    let text = serial.poll(b"  h\x08 \x08ey\x7f\r\nmore\xc3", Ok(())).unwrap();
    let echo = complete(prompt_user(&serial, 0, text));
    assert_eq!(echo, "  h\x08 \x08 \x08 \x08ey\x08 \x08\r\nmore");
    assert_eq!(serial.read_buffer(), "  h\x08 \x08ey\x7f\r\nmore");
    assert_eq!(take_line(&mut serial), "  hey");
    assert_eq!(serial.read_buffer(), "");
    // The partial character is still there.
    assert_eq!(serial.poll(b"\xa9", Ok(())), Ok(String::from("\u{e9}")));
}

#[test]
fn prompt_finds_a_line_that_was_there_before() {
    let mut console = ConsoleBackend::new();
    let _ = console.poll(&keys("old\r"));
    assert_eq!(complete(prompt_user(&console, 0, String::new())), "");
    assert_eq!(take_line(&mut console), "old");
}

#[test]
fn prompt_takes_lines_with_wide_characters() {
    let mut console = ConsoleBackend::new();
    let text = console.poll(&keys("\u{e9}\u{20ac}\n"));
    let _ = complete(prompt_user(&console, 0, text));
    assert_eq!(take_line(&mut console), "\u{e9}\u{20ac}");
}

#[test]
fn text_is_taken_whole() {
    let mut serial = SerialBackend::new();
    let _ = serial.poll(b"a\rb\xc3", Ok(()));
    assert_eq!(take_text(&mut serial), "a\rb");
    assert_eq!(serial.read_buffer(), "");
    assert_eq!(serial.poll(b"\xa9", Ok(())), Ok(String::from("\u{e9}")));
}
