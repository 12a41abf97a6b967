//! The steps that a chat is made of: asking a user for a line, writing to both
//! partners, and choosing the serial device.

use crate::backend::{ChatBackend, DeviceError};
use crate::echo::{count_erases, count_visible, is_control, visible_count};
use crate::helpers::{
    erase_count, find_first_linebreak, first_line, has_linebreak, is_erase, law_first_line,
    limit_erases, string_limit_backspaces, strip_backspaces, stripped, without_erases,
    ChatParticipant,
};
use crate::numbers::{
    decimal, law_shown_number_reads_back, parse_usize, parsed_usize, push_decimal,
};
use crate::utf8_stream::lemma_encode_concat;
use vstd::prelude::*;
use vstd::string::*;
use vstd::utf8::*;

verus! {

/// How many characters are visible after an input was shown, of so many that
/// were visible before. An erase character takes one away as long as there is
/// one.
pub open spec fn visible_after(visible: nat, input: Seq<char>) -> nat
    decreases input.len(),
{
    if input.len() == 0 {
        visible
    } else {
        let before = visible_after(visible, input.drop_last());
        if is_erase(input.last()) {
            if before == 0 {
                0
            } else {
                (before - 1) as nat
            }
        } else if is_control(input.last()) {
            before
        } else {
            before + 1
        }
    }
}

/// What is shown of an input, with so many characters visible before: all but
/// the erase characters for which nothing that the user typed is left.
pub open spec fn accepted_input(visible: nat, input: Seq<char>) -> Seq<char>
    decreases input.len(),
{
    if input.len() == 0 {
        seq![]
    } else {
        let shown = accepted_input(visible, input.drop_last());
        if is_erase(input.last()) && visible_after(visible, input.drop_last()) == 0 {
            shown
        } else {
            shown.push(input.last())
        }
    }
}

/// Whether a text, shown after so many visible characters, never erases more
/// than is there at that point.
pub open spec fn stays_behind_prompt(visible: nat, shown: Seq<char>) -> bool {
    forall|k: int|
        0 <= k <= shown.len() ==> erase_count(#[trigger] shown.take(k)) <= visible + visible_count(
            shown.take(k),
        )
}

/// What was visible or became visible is visible still or was erased.
pub proof fn law_erases_only_own_characters(visible: nat, input: Seq<char>)
    ensures
        visible_count(accepted_input(visible, input)) == visible_count(input),
        visible_after(visible, input) + erase_count(accepted_input(visible, input)) == visible
            + visible_count(input),
    decreases input.len(),
{
    if input.len() > 0 {
        let shown = accepted_input(visible, input.drop_last());
        law_erases_only_own_characters(visible, input.drop_last());
        assert(shown.push(input.last()).drop_last() =~= shown);
    }
}

/// Whatever the user types, what is shown of it erases nothing but the user's
/// own characters, at any point.
pub proof fn law_prompt_is_not_erased(visible: nat, input: Seq<char>)
    ensures
        stays_behind_prompt(visible, accepted_input(visible, input)),
    decreases input.len(),
{
    let shown = accepted_input(visible, input);
    if input.len() > 0 {
        let front = accepted_input(visible, input.drop_last());
        law_prompt_is_not_erased(visible, input.drop_last());
        assert forall|k: int| 0 <= k <= shown.len() implies erase_count(#[trigger] shown.take(k))
            <= visible + visible_count(shown.take(k)) by {
            if k <= front.len() {
                assert(shown.take(k) =~= front.take(k));
            } else {
                assert(shown.take(k) =~= shown);
                law_erases_only_own_characters(visible, input);
            }
        }
    }
}

/// All that the user types is shown, except for erase characters.
pub proof fn law_prompt_shows_other_characters(visible: nat, input: Seq<char>)
    ensures
        without_erases(accepted_input(visible, input)) == without_erases(input),
    decreases input.len(),
{
    reveal(Seq::filter);
    if input.len() > 0 {
        let shown = accepted_input(visible, input.drop_last());
        law_prompt_shows_other_characters(visible, input.drop_last());
        assert(shown.push(input.last()).drop_last() =~= shown);
    }
}

/// An input that erases the user's own characters only is shown as it is.
pub proof fn law_own_erases_are_shown(visible: nat, input: Seq<char>)
    requires
        stays_behind_prompt(visible, input),
    ensures
        accepted_input(visible, input) == input,
    decreases input.len(),
{
    if input.len() > 0 {
        let front = input.drop_last();
        assert forall|k: int| 0 <= k <= front.len() implies erase_count(#[trigger] front.take(k))
            <= visible + visible_count(front.take(k)) by {
            assert(front.take(k) =~= input.take(k));
        }
        law_own_erases_are_shown(visible, front);
        law_erases_only_own_characters(visible, front);
        assert(input.take(input.len() as int) =~= input);
        assert(front.push(input.last()) =~= input);
    }
}

/// It does not matter in which pieces an input arrives.
pub proof fn law_prompt_ignores_cuts(visible: nat, a: Seq<char>, b: Seq<char>)
    ensures
        visible_after(visible, a + b) == visible_after(visible_after(visible, a), b),
        accepted_input(visible, a + b) == accepted_input(visible, a) + accepted_input(
            visible_after(visible, a),
            b,
        ),
    decreases b.len(),
{
    let first = accepted_input(visible, a);
    let second = accepted_input(visible_after(visible, a), b);
    if b.len() == 0 {
        assert(a + b =~= a);
        assert(first + second =~= first);
    } else {
        assert((a + b).drop_last() =~= a + b.drop_last());
        law_prompt_ignores_cuts(visible, a, b.drop_last());
        assert(accepted_input(visible, a + b) =~= first + second);
    }
}

/// How many characters are visible after some rounds of input.
pub open spec fn visible_after_rounds(rounds: Seq<Seq<char>>) -> nat
    decreases rounds.len(),
{
    if rounds.len() == 0 {
        0
    } else {
        visible_after(visible_after_rounds(rounds.drop_last()), rounds.last())
    }
}

/// How many visible characters the user typed in some rounds of input.
pub open spec fn typed_in_rounds(rounds: Seq<Seq<char>>) -> nat
    decreases rounds.len(),
{
    if rounds.len() == 0 {
        0
    } else {
        typed_in_rounds(rounds.drop_last()) + visible_count(rounds.last())
    }
}

/// How many erase characters were shown in some rounds of input.
pub open spec fn erased_in_rounds(rounds: Seq<Seq<char>>) -> nat
    decreases rounds.len(),
{
    if rounds.len() == 0 {
        0
    } else {
        erased_in_rounds(rounds.drop_last()) + erase_count(
            accepted_input(visible_after_rounds(rounds.drop_last()), rounds.last()),
        )
    }
}

/// Over all rounds of a prompt, what was typed is what is visible and what was
/// erased.
pub proof fn law_prompt_balance(rounds: Seq<Seq<char>>)
    ensures
        visible_after_rounds(rounds) + erased_in_rounds(rounds) == typed_in_rounds(rounds),
    decreases rounds.len(),
{
    if rounds.len() > 0 {
        law_prompt_balance(rounds.drop_last());
        law_erases_only_own_characters(visible_after_rounds(rounds.drop_last()), rounds.last());
    }
}

pub proof fn lemma_visible_count_bound(s: Seq<char>)
    ensures
        visible_count(s) <= s.len(),
    decreases s.len(),
{
    if s.len() > 0 {
        lemma_visible_count_bound(s.drop_last());
    }
}

/// The end of the first characters of a text is a boundary in its encoding.
proof fn lemma_char_boundary(s: Seq<char>, n: int)
    requires
        0 <= n <= s.len(),
    ensures
        is_char_boundary(encode_utf8(s), encode_utf8(s.take(n)).len() as int),
        encode_utf8(s).subrange(0, encode_utf8(s.take(n)).len() as int) == encode_utf8(s.take(n)),
    decreases n,
{
    encode_utf8_valid_utf8(s);
    assert(s =~= s.take(n) + s.skip(n));
    lemma_encode_concat(s.take(n), s.skip(n));
    assert(encode_utf8(s).subrange(0, encode_utf8(s.take(n)).len() as int) =~= encode_utf8(
        s.take(n),
    ));
    if n == 0 {
        assert(s.take(0) =~= Seq::<char>::empty());
    } else {
        let bytes = encode_utf8(s);
        encode_utf8_first_scalar(s);
        assert(pop_first_scalar(bytes) =~= encode_utf8(s.drop_first()));
        assert(s.take(n).drop_first() =~= s.drop_first().take(n - 1));
        lemma_char_boundary(s.drop_first(), n - 1);
    }
}

proof fn lemma_visible_count_take(s: Seq<char>, k: int)
    requires
        0 <= k <= s.len(),
    ensures
        visible_count(s.take(k)) <= visible_count(s),
    decreases s.len(),
{
    if k == s.len() {
        assert(s.take(k) =~= s);
    } else {
        assert(s.drop_last().take(k) =~= s.take(k));
        lemma_visible_count_take(s.drop_last(), k);
    }
}

/// Limiting one character by what is visible before it.
proof fn lemma_limit_one(c: char, allowed: nat)
    ensures
        visible_count(seq![c]) == if is_control(c) { 0nat } else { 1nat },
        limit_erases(seq![c], allowed) == if is_erase(c) && allowed == 0 {
            Seq::<char>::empty()
        } else {
            seq![c]
        },
        erase_count(limit_erases(seq![c], allowed)) == if is_erase(c) && allowed > 0 {
            1nat
        } else {
            0nat
        },
{
    let empty = Seq::<char>::empty();
    assert(seq![c].drop_last() =~= empty);
    assert(empty.push(c) =~= seq![c]);
    reveal_with_fuel(visible_count, 2);
    reveal_with_fuel(erase_count, 2);
    reveal_with_fuel(limit_erases, 2);
}

/// Removes the superfluous backspaces from an input, character by character, and
/// counts how many characters are visible then.
fn limit_input(visible: usize, input: &str) -> (result: (String, usize))
    requires
        visible + visible_count(input@) <= usize::MAX,
    ensures
        result.0@ == accepted_input(visible as nat, input@),
        result.1 == visible_after(visible as nat, input@),
{
    let mut shown: String = String::new();
    let mut n: usize = visible;
    for c in it: input.chars()
        invariant
            it.seq() == input@,
            visible + visible_count(input@) <= usize::MAX,
            shown@ == accepted_input(visible as nat, input@.take(it.index() as int)),
            n == visible_after(visible as nat, input@.take(it.index() as int)),
    {
        let ghost next = input@.take(it.index() + 1);
        proof {
            assert(next.drop_last() =~= input@.take(it.index() as int));
            lemma_visible_count_take(input@, it.index() + 1);
            law_erases_only_own_characters(visible as nat, next.drop_last());
            lemma_limit_one(c, 0);
        }
        let mut piece: String = String::new();
        piece.push(c);
        proof {
            assert(piece@ =~= seq![c]);
        }
        let allowed: usize = n + count_visible(piece.as_str());
        proof {
            lemma_limit_one(c, allowed as nat);
        }
        let piece = string_limit_backspaces(piece, allowed);
        // Now subtract how many chars we just erased from the screen.
        n = allowed - count_erases(piece.as_str());
        shown.append(piece.as_str());
        proof {
            assert(shown@ =~= accepted_input(visible as nat, next));
        }
    }
    proof {
        assert(input@.take(input@.len() as int) =~= input@);
    }
    (shown, n)
}

/// What is to be done after input has arrived at a prompt.
#[derive(Debug)]
pub enum PromptStep {
    /// Show the echo, wait a moment and look for more input.
    Pending {
        /// The input as it is shown.
        echo: String,
        /// How many characters of the input are visible then.
        visible_chars_n: usize,
    },
    /// Show the echo, end the line on the screen, and take it.
    Complete {
        /// The input as it is shown.
        echo: String,
    },
}

/// One round of prompting the user for input.
///
/// `latest_input` is what was received since the last round; it also is in the
/// read buffer of the backend already. `visible_chars_n` is the number of
/// visible characters. This helps to keep track how many DEL/BS we can propagate
/// to the backend to prevent deleting the prompt or anything other than the user
/// input.
///
/// The input stays in the read buffer. Once the echo of a whole line and the
/// newline after it were written, [`take_line`] takes it from there.
pub fn prompt_user<B: ChatBackend>(
    backend: &B,
    visible_chars_n: usize,
    latest_input: String,
) -> (step: PromptStep)
    requires
        visible_chars_n + visible_count(latest_input@) <= usize::MAX,
    ensures
        ({
            let shown = accepted_input(visible_chars_n as nat, latest_input@);
            &&& stays_behind_prompt(visible_chars_n as nat, shown)
            &&& without_erases(shown) == without_erases(latest_input@)
            &&& match step {
                PromptStep::Pending { echo, visible_chars_n: visible } => {
                    &&& !has_linebreak(backend.buffered())
                    &&& echo@ == backend.normalized(shown)
                    &&& visible == visible_after(visible_chars_n as nat, latest_input@)
                },
                PromptStep::Complete { echo } => {
                    &&& has_linebreak(backend.buffered())
                    &&& echo@ == backend.normalized(shown)
                },
            }
        }),
{
    // Remove superfluous backspaces, otherwise we will remove our prompt from
    // the screen.
    proof {
        law_prompt_is_not_erased(visible_chars_n as nat, latest_input@);
        law_prompt_shows_other_characters(visible_chars_n as nat, latest_input@);
    }
    let (limited, visible) = limit_input(visible_chars_n, latest_input.as_str());
    let echo = backend.normalize_backspaces(limited);
    // Did the user input a whole line?
    match find_first_linebreak(backend.read_buffer()) {
        None => PromptStep::Pending { echo, visible_chars_n: visible },
        Some(_) => PromptStep::Complete { echo },
    }
}

/// Takes a line that the user has entered from the read buffer of the backend,
/// which is empty then.
///
/// The returned string contains a whole line without the terminating newline
/// character. Further, all backspace/delete characters will be stripped.
pub fn take_line<B: ChatBackend>(backend: &mut B) -> (line: String)
    requires
        has_linebreak(old(backend).buffered()),
    ensures
        line@ == stripped(first_line(old(backend).buffered())),
        final(backend).buffered() == Seq::<char>::empty(),
        final(backend).undecoded() == old(backend).undecoded(),
{
    let line: String = match find_first_linebreak(backend.read_buffer()) {
        None => String::new(),
        Some(pos) => {
            // Remove anything after the newline.
            let buffer = backend.read_buffer();
            proof {
                law_first_line(buffer@);
                lemma_char_boundary(buffer@, first_line(buffer@).len() as int);
            }
            let (line, _) = buffer.split_at(pos);
            proof {
                encode_utf8_decode_utf8(line@);
                encode_utf8_decode_utf8(first_line(buffer@));
            }
            line.to_owned()
        },
    };
    *backend.read_buffer_mut() = String::new();
    // Remove any intermediate backspaces and only keep the effective string.
    strip_backspaces(line)
}

/// Takes all text from the read buffer of the backend, which is empty then.
pub fn take_text<B: ChatBackend>(backend: &mut B) -> (text: String)
    ensures
        text@ == old(backend).buffered(),
        final(backend).buffered() == Seq::<char>::empty(),
        final(backend).undecoded() == old(backend).undecoded(),
{
    let text = backend.read_buffer().to_owned();
    *backend.read_buffer_mut() = String::new();
    text
}

/// Whether an answer was what was asked for.
#[derive(Debug)]
pub enum Answer<T> {
    /// It was, and this is its value.
    Value(T),
    /// It was not, and the user is asked again.
    AskAgain,
}

/// Takes a value that the answer was converted to, or has the user asked again
/// where it could not be converted.
pub fn _prompt_user_for_value<T, E>(parsed: Result<T, E>) -> (answer: Answer<T>)
    ensures
        match parsed {
            Ok(value) => answer == Answer::Value(value),
            Err(_) => answer == Answer::<T>::AskAgain,
        },
{
    match parsed {
        Ok(value) => Answer::Value(value),
        Err(_) => Answer::AskAgain,
    }
}

/// Prompts the user until its input can be converted to a number: takes the
/// number that the line stands for, or has the user asked again.
pub fn prompt_user_for_value(line: &str) -> (answer: Answer<usize>)
    ensures
        match parsed_usize(line@) {
            Some(value) => answer == Answer::Value(value),
            None => answer == Answer::<usize>::AskAgain,
        },
{
    let parsed: Result<usize, ()> = match parse_usize(line) {
        Some(value) => Ok(value),
        None => Err(()),
    };
    _prompt_user_for_value(parsed)
}

/// What a user is asked for.
#[derive(Copy, Clone, Debug, PartialEq, Eq, Structural)]
pub enum Question {
    /// The number of a serial device.
    Handle,
    /// A name.
    Username,
}

/// Why the chat ends.
#[derive(Copy, Clone, Debug, PartialEq, Eq, Structural)]
pub enum ChatError {
    /// There is no serial device to chat over.
    NoSerialHandle,
    /// There is no serial device to choose from.
    NoHandles,
    /// There is no serial device with the number that was chosen.
    NoSuchHandle(usize),
    /// The serial device failed.
    Device(DeviceError),
    /// An action could not be performed.
    ActionFailed,
}

/// Something that is to be done in a chat.
#[derive(Debug)]
pub enum Task {
    /// Write a text to a partner.
    Write(ChatParticipant, String),
    /// Clear the screen of a partner.
    ClearScreen(ChatParticipant),
    /// Get the device path of the serial device with this number, and list it.
    Describe(usize),
    /// Throw away what a partner has typed.
    Drain(ChatParticipant),
    /// Receive what a partner types, of which so many characters are visible.
    Read(ChatParticipant, Question, usize),
    /// End the line that a partner has entered on the screen, and take it.
    EndLine(ChatParticipant, Question),
    /// Receive what a partner says in the chat.
    Listen(ChatParticipant),
    /// Wait a moment.
    Stall,
    /// Open the serial device with this number.
    Open(usize),
    /// End the chat.
    Fail(ChatError),
}

/// What [`Task`] stands for.
pub enum TaskView {
    /// Write a text to a partner.
    Write(ChatParticipant, Seq<char>),
    /// Clear the screen of a partner.
    ClearScreen(ChatParticipant),
    /// Get the device path of the serial device with this number, and list it.
    Describe(usize),
    /// Throw away what a partner has typed.
    Drain(ChatParticipant),
    /// Receive what a partner types, of which so many characters are visible.
    Read(ChatParticipant, Question, nat),
    /// End the line that a partner has entered on the screen, and take it.
    EndLine(ChatParticipant, Question),
    /// Receive what a partner says in the chat.
    Listen(ChatParticipant),
    /// Wait a moment.
    Stall,
    /// Open the serial device with this number.
    Open(usize),
    /// End the chat.
    Fail(ChatError),
}

impl View for Task {
    type V = TaskView;

    open spec fn view(&self) -> TaskView {
        match *self {
            Task::Write(who, text) => TaskView::Write(who, text@),
            Task::ClearScreen(who) => TaskView::ClearScreen(who),
            Task::Describe(i) => TaskView::Describe(i),
            Task::Drain(who) => TaskView::Drain(who),
            Task::Read(who, question, visible) => TaskView::Read(who, question, visible as nat),
            Task::EndLine(who, question) => TaskView::EndLine(who, question),
            Task::Listen(who) => TaskView::Listen(who),
            Task::Stall => TaskView::Stall,
            Task::Open(i) => TaskView::Open(i),
            Task::Fail(err) => TaskView::Fail(err),
        }
    }
}

/// What a list of tasks stands for.
pub open spec fn tasks_view(tasks: Seq<Task>) -> Seq<TaskView> {
    tasks.map_values(|task: Task| task@)
}

/// A list of tasks followed by another one.
pub(crate) fn followed_by(tasks: Vec<Task>, more: Vec<Task>) -> (all: Vec<Task>)
    ensures
        tasks_view(all@) == tasks_view(tasks@) + tasks_view(more@),
{
    let mut all = tasks;
    let mut more = more;
    let ghost first = all@;
    let ghost second = more@;
    all.append(&mut more);
    proof {
        assert(tasks_view(all@) =~= tasks_view(first) + tasks_view(second));
    }
    all
}

/// A list of tasks with one more at its end.
pub(crate) fn followed_by_one(tasks: Vec<Task>, task: Task) -> (all: Vec<Task>)
    ensures
        tasks_view(all@) == tasks_view(tasks@).push(task@),
{
    let mut all = tasks;
    let ghost first = all@;
    all.push(task);
    proof {
        assert(tasks_view(all@) =~= tasks_view(first).push(task@));
    }
    all
}

/// A list without tasks.
pub(crate) fn no_tasks() -> (tasks: Vec<Task>)
    ensures
        tasks_view(tasks@) == Seq::<TaskView>::empty(),
{
    let tasks: Vec<Task> = Vec::new();
    proof {
        assert(tasks_view(tasks@) =~= Seq::<TaskView>::empty());
    }
    tasks
}

/// The writes by which a message reaches some partners, one after the other.
pub open spec fn broadcast_tasks(msg: Seq<char>, backends: Seq<ChatParticipant>) -> Seq<TaskView> {
    backends.map_values(|who: ChatParticipant| TaskView::Write(who, msg))
}

/// Broadcasts a message to all backends.
pub fn broadcast(msg: &str, backends: &[ChatParticipant]) -> (tasks: Vec<Task>)
    ensures
        tasks_view(tasks@) == broadcast_tasks(msg@, backends@),
{
    let mut tasks: Vec<Task> = Vec::new();
    let mut i: usize = 0;
    while i < backends.len()
        invariant
            i <= backends@.len(),
            tasks@.len() == i,
            forall|k: int|
                0 <= k < i ==> (#[trigger] tasks@[k])@ == TaskView::Write(backends@[k], msg@),
        decreases backends@.len() - i,
    {
        tasks.push(Task::Write(backends[i], msg.to_owned()));
        i = i + 1;
    }
    proof {
        assert(tasks_view(tasks@) =~= broadcast_tasks(msg@, backends@));
    }
    tasks
}

/// The text of a question.
pub open spec fn question_text(question: Question) -> Seq<char> {
    match question {
        Question::Handle => "Please select a handle (0, 1, 2, ...): "@,
        Question::Username => "Choose your username: "@,
    }
}

/// Putting a question to a partner: the text, and then the answer.
pub open spec fn ask_tasks(who: ChatParticipant, question: Question) -> Seq<TaskView> {
    seq![
        TaskView::Write(who, question_text(question)),
        TaskView::Read(who, question, 0),
    ]
}

/// Puts a question to a partner.
pub fn ask(who: ChatParticipant, question: Question) -> (tasks: Vec<Task>)
    ensures
        tasks_view(tasks@) == ask_tasks(who, question),
{
    let text: String = match question {
        Question::Handle => "Please select a handle (0, 1, 2, ...): ".to_owned(),
        Question::Username => "Choose your username: ".to_owned(),
    };
    let mut tasks: Vec<Task> = Vec::new();
    tasks.push(Task::Write(who, text));
    tasks.push(Task::Read(who, question, 0));
    proof {
        assert(tasks_view(tasks@) =~= ask_tasks(who, question));
    }
    tasks
}

/// The line in which a serial device is listed.
pub open spec fn handle_line_text(i: nat, device_path: Seq<char>) -> Seq<char> {
    "["@ + decimal(i) + "]: "@ + device_path + "\n"@
}

/// Formats the line in which a serial device is listed.
pub fn handle_line(i: usize, device_path: &str) -> (line: String)
    ensures
        line@ == handle_line_text(i as nat, device_path@),
{
    let mut line: String = "[".to_owned();
    push_decimal(&mut line, i);
    line.append("]: ");
    line.append(device_path);
    line.append("\n");
    line
}

/// Listing some serial devices and asking the local user for one of them.
pub open spec fn select_tasks(handles: nat) -> Seq<TaskView> {
    seq![
        TaskView::Write(
            ChatParticipant::Local,
            "Available handles supporting the SERIAL_IO protocol:\n"@,
        ),
    ] + (if handles == 0 {
        seq![TaskView::Fail(ChatError::NoHandles)]
    } else {
        Seq::new(handles, |i: int| TaskView::Describe(i as usize)) + ask_tasks(
            ChatParticipant::Local,
            Question::Handle,
        )
    })
}

/// Prompts the user to select a handle, of which there are so many.
pub fn select_serial_handle(handles: usize) -> (tasks: Vec<Task>)
    ensures
        tasks_view(tasks@) == select_tasks(handles as nat),
{
    let heading = "Available handles supporting the SERIAL_IO protocol:\n".to_owned();
    let tasks = followed_by_one(no_tasks(), Task::Write(ChatParticipant::Local, heading));
    let ghost head = tasks_view(tasks@);
    proof {
        assert(head =~= seq![
            TaskView::Write(
                ChatParticipant::Local,
                "Available handles supporting the SERIAL_IO protocol:\n"@,
            ),
        ]);
    }
    if handles == 0 {
        let tasks = followed_by_one(tasks, Task::Fail(ChatError::NoHandles));
        proof {
            assert(tasks_view(tasks@) =~= select_tasks(0));
        }
        return tasks;
    }
    let mut listing: Vec<Task> = Vec::new();
    let mut i: usize = 0;
    while i < handles
        invariant
            i <= handles,
            listing@.len() == i,
            forall|k: int|
                0 <= k < i ==> (#[trigger] listing@[k])@ == TaskView::Describe(k as usize),
        decreases handles - i,
    {
        listing.push(Task::Describe(i));
        i = i + 1;
    }
    proof {
        assert(tasks_view(listing@) =~= Seq::new(
            handles as nat,
            |i: int| TaskView::Describe(i as usize),
        ));
    }
    followed_by(tasks, followed_by(listing, ask(ChatParticipant::Local, Question::Handle)))
}

/// How the partners are told the name that one of them chose.
pub open spec fn announcement_text(who: ChatParticipant, username: Seq<char>) -> Seq<char> {
    (match who {
        ChatParticipant::Local => "Local machine chose username : '"@,
        ChatParticipant::Remote => "Remote machine chose username: '"@,
    }) + username + "'\n"@
}

/// Formats how the partners are told the name that one of them chose.
pub fn announcement(who: ChatParticipant, username: &str) -> (text: String)
    ensures
        text@ == announcement_text(who, username@),
{
    let mut text: String = match who {
        ChatParticipant::Local => "Local machine chose username : '".to_owned(),
        ChatParticipant::Remote => "Remote machine chose username: '".to_owned(),
    };
    text.append(username);
    text.append("'\n");
    text
}

/// Both partners, the local one first.
pub open spec fn both() -> Seq<ChatParticipant> {
    seq![ChatParticipant::Local, ChatParticipant::Remote]
}

/// Broadcasts a message to both partners.
pub(crate) fn broadcast_to_both(msg: &str) -> (tasks: Vec<Task>)
    ensures
        tasks_view(tasks@) == broadcast_tasks(msg@, both()),
{
    let mut backends: Vec<ChatParticipant> = Vec::new();
    backends.push(ChatParticipant::Local);
    backends.push(ChatParticipant::Remote);
    proof {
        assert(backends@ =~= both());
    }
    broadcast(msg, backends.as_slice())
}

/// What follows the answer to a question, with so many serial devices. The
/// number of a device opens it, and a number that none has ends the chat;
/// anything else has the question put again. A name is announced.
pub open spec fn answer_tasks(
    handles: nat,
    who: ChatParticipant,
    question: Question,
    line: Seq<char>,
) -> Seq<TaskView> {
    match question {
        Question::Handle => match parsed_usize(line) {
            Some(i) => if i < handles {
                seq![TaskView::Open(i)]
            } else {
                seq![TaskView::Fail(ChatError::NoSuchHandle(i))]
            },
            None => ask_tasks(who, Question::Handle),
        },
        Question::Username => broadcast_tasks(announcement_text(who, line), both()),
    }
}

/// Says what follows the answer to a question.
pub fn answered(handles: usize, who: ChatParticipant, question: Question, line: &str) -> (tasks:
    Vec<Task>)
    ensures
        tasks_view(tasks@) == answer_tasks(handles as nat, who, question, line@),
{
    match question {
        Question::Handle => match prompt_user_for_value(line) {
            Answer::Value(i) => {
                let task = if i < handles {
                    Task::Open(i)
                } else {
                    Task::Fail(ChatError::NoSuchHandle(i))
                };
                let tasks = followed_by_one(no_tasks(), task);
                proof {
                    assert(tasks_view(tasks@) =~= answer_tasks(
                        handles as nat,
                        who,
                        question,
                        line@,
                    ));
                }
                tasks
            },
            Answer::AskAgain => ask(who, Question::Handle),
        },
        Question::Username => broadcast_to_both(announcement(who, line).as_str()),
    }
}

/// A task stands for what is to be done in it, and a list of tasks for its tasks
/// one by one.
pub proof fn law_tasks_stand_for_themselves(
    tasks: Seq<Task>,
    k: int,
    who: ChatParticipant,
    question: Question,
    text: String,
    n: usize,
    err: ChatError,
)
    requires
        0 <= k < tasks.len(),
    ensures
        tasks_view(tasks).len() == tasks.len(),
        tasks_view(tasks)[k] == tasks[k]@,
        Task::Write(who, text)@ == TaskView::Write(who, text@),
        Task::ClearScreen(who)@ == TaskView::ClearScreen(who),
        Task::Describe(n)@ == TaskView::Describe(n),
        Task::Drain(who)@ == TaskView::Drain(who),
        Task::Read(who, question, n)@ == TaskView::Read(who, question, n as nat),
        Task::EndLine(who, question)@ == TaskView::EndLine(who, question),
        Task::Listen(who)@ == TaskView::Listen(who),
        Task::Stall@ == TaskView::Stall,
        Task::Open(n)@ == TaskView::Open(n),
        Task::Fail(err)@ == TaskView::Fail(err),
{
}

/// A message that is broadcast is written, as it is, to each partner once and in
/// their order. Both partners are the local one and then the remote one.
pub proof fn law_broadcast_reaches_everyone(
    msg: Seq<char>,
    backends: Seq<ChatParticipant>,
    k: int,
)
    requires
        0 <= k < backends.len(),
    ensures
        broadcast_tasks(msg, backends).len() == backends.len(),
        broadcast_tasks(msg, backends)[k] == TaskView::Write(backends[k], msg),
        broadcast_tasks(msg, both()).len() == 2,
        broadcast_tasks(msg, both())[0] == TaskView::Write(ChatParticipant::Local, msg),
        broadcast_tasks(msg, both())[1] == TaskView::Write(ChatParticipant::Remote, msg),
{
}

/// A question is written to a partner, and then that partner is listened to with
/// nothing visible yet.
pub proof fn law_question_is_put(who: ChatParticipant, question: Question)
    ensures
        ask_tasks(who, question).len() == 2,
        ask_tasks(who, question)[0] == TaskView::Write(
            who,
            if question is Handle {
                "Please select a handle (0, 1, 2, ...): "@
            } else {
                "Choose your username: "@
            },
        ),
        ask_tasks(who, question)[1] == TaskView::Read(who, question, 0),
{
}

/// The line in which a serial device is listed has its number in brackets, which
/// reads back as that number, and ends with the whole device path.
pub proof fn law_listed_line(i: usize, device_path: Seq<char>)
    ensures
        ({
            let line = handle_line_text(i as nat, device_path);
            let number = line.subrange(1, line.len() - device_path.len() - 4);
            &&& line.len() > device_path.len() + 5
            &&& line[0] == '['
            &&& parsed_usize(number) == Some(i)
            &&& number == decimal(i as nat)
            &&& line.skip(line.len() - device_path.len() - 4) == "]: "@ + device_path + "\n"@
        }),
{
    reveal_strlit("[");
    reveal_strlit("]: ");
    reveal_strlit("\n");
    let line = handle_line_text(i as nat, device_path);
    let number = line.subrange(1, line.len() - device_path.len() - 4);
    law_shown_number_reads_back(i);
    assert(decimal(i as nat).len() > 0);
    assert(number =~= decimal(i as nat));
    assert(line.skip(line.len() - device_path.len() - 4) =~= "]: "@ + device_path + "\n"@);
}

/// Selecting a device starts with a heading, lists all devices in the order of
/// their numbers, and then asks the local user. Where there is none, it fails
/// after the heading.
pub proof fn law_every_device_is_listed(handles: usize, i: usize)
    requires
        i < handles,
    ensures
        select_tasks(handles as nat).len() == handles + 3,
        select_tasks(handles as nat)[0] == TaskView::Write(
            ChatParticipant::Local,
            "Available handles supporting the SERIAL_IO protocol:\n"@,
        ),
        select_tasks(handles as nat)[1 + i] == TaskView::Describe(i),
        select_tasks(handles as nat)[1 + handles] == TaskView::Write(
            ChatParticipant::Local,
            "Please select a handle (0, 1, 2, ...): "@,
        ),
        select_tasks(handles as nat)[2 + handles] == TaskView::Read(
            ChatParticipant::Local,
            Question::Handle,
            0,
        ),
        select_tasks(0).len() == 2,
        select_tasks(0)[0] == select_tasks(handles as nat)[0],
        select_tasks(0)[1] == TaskView::Fail(ChatError::NoHandles),
{
}

/// An announcement has the chosen name, all of it, in quotes, behind who chose
/// it.
pub proof fn law_announcement(name: Seq<char>)
    ensures
        announcement_text(ChatParticipant::Local, name) == "Local machine chose username : '"@
            + name + "'\n"@,
        announcement_text(ChatParticipant::Remote, name) == "Remote machine chose username: '"@
            + name + "'\n"@,
{
}

/// The answer to the question for a device opens the device with that number, if
/// there is one; a number without a device ends the chat; and anything else has
/// the question put again. The answer to the question for a name is announced to
/// both partners.
pub proof fn law_answers(handles: nat, who: ChatParticipant, line: Seq<char>)
    ensures
        ({
            let answer = answer_tasks(handles, who, Question::Handle, line);
            match parsed_usize(line) {
                Some(i) => {
                    &&& answer.len() == 1
                    &&& i < handles ==> answer[0] == TaskView::Open(i)
                    &&& i >= handles ==> answer[0] == TaskView::Fail(ChatError::NoSuchHandle(i))
                },
                None => {
                    &&& answer.len() == 2
                    &&& answer[0] == TaskView::Write(
                        who,
                        "Please select a handle (0, 1, 2, ...): "@,
                    )
                    &&& answer[1] == TaskView::Read(who, Question::Handle, 0)
                },
            }
        }),
        ({
            let answer = answer_tasks(handles, who, Question::Username, line);
            let announcement = (if who is Local {
                "Local machine chose username : '"@
            } else {
                "Remote machine chose username: '"@
            }) + line + "'\n"@;
            &&& answer.len() == 2
            &&& answer[0] == TaskView::Write(ChatParticipant::Local, announcement)
            &&& answer[1] == TaskView::Write(ChatParticipant::Remote, announcement)
        }),
{
}

} // verus!
