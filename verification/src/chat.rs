//! The chat as a whole: what is done next, given what has happened so far.
//!
//! A [`Session`] holds the list of what is still to be done. It names one action
//! at a time and is told how that action ended.

use crate::actions::{
    accepted_input, announcement_text, answer_tasks, answered, ask, ask_tasks, both,
    broadcast_tasks, broadcast_to_both, followed_by, followed_by_one, handle_line,
    handle_line_text, law_erases_only_own_characters, lemma_visible_count_bound, no_tasks,
    prompt_user, select_serial_handle, select_tasks, take_line, take_text, tasks_view,
    visible_after, ChatError, PromptStep, Question, Task, TaskView,
};
use crate::backend::{
    all_keys_valid, keys_valid, received_count, typed_text, ChatBackend, ConsoleBackend,
    DeviceError, Key, SerialBackend,
};
use crate::conversation::{law_messages_stay, Conversation, ConversationView};
use crate::echo::{erases_spelled_out, visible_count};
use crate::firmware::{revision_display, revision_text, status_timeout};
use crate::helpers::{first_line, has_linebreak, stripped, ChatParticipant};
use crate::numbers::{decimal, law_shown_number_reads_back, parsed_usize, push_decimal};
use crate::utf8_stream::{complete_text, incomplete_rest};
use vstd::prelude::*;
use vstd::string::*;

verus! {

/// How long to wait for input at a time, in milliseconds: 60 times a second.
pub const STALL_MILLIS: u64 = 16;

/// What the outside has to do next.
#[derive(Debug)]
pub enum Action {
    /// Write a text to a partner.
    Write(ChatParticipant, String),
    /// Clear the screen of a partner.
    ClearScreen(ChatParticipant),
    /// Get the device path of the serial device with this number, as a text.
    Describe(usize),
    /// Receive what a partner has typed.
    Poll(ChatParticipant),
    /// Wait for so many milliseconds.
    Stall(u64),
    /// Open the serial device with this number.
    Open(usize),
    /// Give up.
    Fail(ChatError),
}

/// What [`Action`] stands for.
pub enum ActionView {
    /// Write a text to a partner.
    Write(ChatParticipant, Seq<char>),
    /// Clear the screen of a partner.
    ClearScreen(ChatParticipant),
    /// Get the device path of the serial device with this number, as a text.
    Describe(usize),
    /// Receive what a partner has typed.
    Poll(ChatParticipant),
    /// Wait for so many milliseconds.
    Stall(u64),
    /// Open the serial device with this number.
    Open(usize),
    /// Give up.
    Fail(ChatError),
}

impl View for Action {
    type V = ActionView;

    open spec fn view(&self) -> ActionView {
        match *self {
            Action::Write(who, text) => ActionView::Write(who, text@),
            Action::ClearScreen(who) => ActionView::ClearScreen(who),
            Action::Describe(i) => ActionView::Describe(i),
            Action::Poll(who) => ActionView::Poll(who),
            Action::Stall(millis) => ActionView::Stall(millis),
            Action::Open(i) => ActionView::Open(i),
            Action::Fail(err) => ActionView::Fail(err),
        }
    }
}

/// How an action ended.
#[derive(Debug)]
pub enum Event {
    /// It was done.
    Done,
    /// The device path of a serial device.
    Described(String),
    /// The keys that were pressed on the console.
    Keys(Vec<Key>),
    /// The buffer that a read from the serial device was to fill, and how the
    /// read ended.
    Received(Vec<u8>, Result<(), DeviceError>),
    /// It could not be done.
    Failed,
}

/// What [`Event`] stands for.
pub enum EventView {
    /// It was done.
    Done,
    /// The device path of a serial device.
    Described(Seq<char>),
    /// The keys that were pressed on the console.
    Keys(Seq<Key>),
    /// The buffer that a read from the serial device was to fill, and how the
    /// read ended.
    Received(Seq<u8>, Result<(), DeviceError>),
    /// It could not be done.
    Failed,
}

impl View for Event {
    type V = EventView;

    open spec fn view(&self) -> EventView {
        match *self {
            Event::Done => EventView::Done,
            Event::Described(text) => EventView::Described(text@),
            Event::Keys(keys) => EventView::Keys(keys@),
            Event::Received(buf, outcome) => EventView::Received(buf@, outcome),
            Event::Failed => EventView::Failed,
        }
    }
}

/// The action by which a task is done.
pub open spec fn action_for(task: TaskView) -> ActionView {
    match task {
        TaskView::Write(who, text) => ActionView::Write(who, text),
        TaskView::ClearScreen(who) => ActionView::ClearScreen(who),
        TaskView::Describe(i) => ActionView::Describe(i),
        TaskView::Drain(who) => ActionView::Poll(who),
        TaskView::Read(who, _, _) => ActionView::Poll(who),
        TaskView::EndLine(who, _) => ActionView::Write(who, "\n"@),
        TaskView::Listen(who) => ActionView::Poll(who),
        TaskView::Stall => ActionView::Stall(STALL_MILLIS),
        TaskView::Open(i) => ActionView::Open(i),
        TaskView::Fail(err) => ActionView::Fail(err),
    }
}

/// Whether an event says how an action ended. Nothing can follow once the chat
/// has been given up.
pub open spec fn event_fits(action: ActionView, event: EventView) -> bool {
    match action {
        ActionView::Fail(_) => false,
        ActionView::Describe(_) => event is Failed || event is Described,
        ActionView::Poll(ChatParticipant::Local) => match event {
            EventView::Failed => true,
            EventView::Keys(keys) => keys_valid(keys),
            _ => false,
        },
        ActionView::Poll(ChatParticipant::Remote) => match event {
            EventView::Failed => true,
            EventView::Received(buf, outcome) => received_count(outcome, buf.len()) matches Some(
                n,
            ) ==> n <= buf.len(),
            _ => false,
        },
        _ => event is Failed || event is Done,
    }
}

/// Drawing both screens anew, with the same text on them.
pub open spec fn draw_tasks(screen: Seq<char>) -> Seq<TaskView> {
    seq![
        TaskView::ClearScreen(ChatParticipant::Local),
        TaskView::ClearScreen(ChatParticipant::Remote),
        TaskView::Write(ChatParticipant::Local, screen),
        TaskView::Write(ChatParticipant::Remote, screen),
    ]
}

/// Listening to both partners for a moment.
pub open spec fn listen_tasks() -> Seq<TaskView> {
    seq![
        TaskView::Listen(ChatParticipant::Local),
        TaskView::Listen(ChatParticipant::Remote),
        TaskView::Stall,
    ]
}

/// Whether a task leaves what was received as it is.
pub open spec fn is_passive(task: TaskView) -> bool {
    task is Write || task is Stall
}

/// What a [`Session`] stands for.
pub struct SessionView {
    /// What is to be done, in order.
    pub agenda: Seq<TaskView>,
    /// What was received from the console and not yet consumed.
    pub console: Seq<char>,
    /// What was received from the serial device and not yet consumed.
    pub serial: Seq<char>,
    /// The bytes from the serial device that are no complete character yet.
    pub undecoded: Seq<u8>,
    /// How many serial devices there are to choose from.
    pub handles: nat,
    /// What was said in the chat, and what the partners are typing.
    pub conversation: ConversationView,
    /// What both screens were last drawn with in the chat.
    pub screen: Option<Seq<char>>,
}

impl SessionView {
    /// What was received from a partner and not yet consumed.
    pub open spec fn buffer(self, who: ChatParticipant) -> Seq<char> {
        match who {
            ChatParticipant::Local => self.console,
            ChatParticipant::Remote => self.serial,
        }
    }

    /// Whether a task can be done when its turn comes. Where characters of an
    /// input are visible, or a line was entered, the input is in the buffer
    /// still, and nothing takes it from there before it is read on or the line
    /// is taken. A serial device that is to be used is there.
    pub open spec fn can_do(self, i: int) -> bool {
        match self.agenda[i] {
            TaskView::Read(who, _, visible) => visible > 0 ==> visible <= self.buffer(who).len()
                && self.passive_before(i),
            TaskView::EndLine(who, _) => has_linebreak(self.buffer(who)) && self.passive_before(i),
            TaskView::Describe(k) => k < self.handles,
            TaskView::Open(k) => k < self.handles,
            _ => true,
        }
    }

    /// Whether the tasks before a task leave what was received as it is.
    pub open spec fn passive_before(self, i: int) -> bool {
        forall|k: int| 0 <= k < i ==> is_passive(#[trigger] self.agenda[k])
    }

    /// There is always something to do, and all of it can be done.
    pub open spec fn wf(self) -> bool {
        &&& self.agenda.len() > 0
        &&& forall|i: int| 0 <= i < self.agenda.len() ==> #[trigger] self.can_do(i)
    }

    /// The session in the next round of the chat. The screens are drawn anew
    /// unless they show the conversation as it is, and then both partners are
    /// listened to.
    pub open spec fn next_round(self) -> SessionView {
        let screen = self.conversation.screen();
        if self.screen == Some(screen) {
            SessionView { agenda: listen_tasks(), ..self }
        } else {
            SessionView {
                agenda: draw_tasks(screen) + listen_tasks(),
                screen: Some(screen),
                ..self
            }
        }
    }

    /// The session with another list of what is to be done, or the next round of
    /// the chat where nothing is.
    pub open spec fn with_agenda(self, tasks: Seq<TaskView>) -> SessionView {
        if tasks.len() == 0 {
            self.next_round()
        } else {
            SessionView { agenda: tasks, ..self }
        }
    }

    /// The session given up.
    pub open spec fn failed(self, err: ChatError) -> SessionView {
        self.with_agenda(seq![TaskView::Fail(err)])
    }

    /// The session with its input buffers as they are after an event.
    pub open spec fn receiving(self, event: EventView) -> SessionView {
        match event {
            EventView::Keys(keys) => SessionView {
                console: self.console + typed_text(keys),
                ..self
            },
            EventView::Received(buf, outcome) => match received_count(outcome, buf.len()) {
                Some(n) => SessionView {
                    serial: self.serial + complete_text(self.undecoded + buf.take(n as int)),
                    undecoded: incomplete_rest(self.undecoded + buf.take(n as int)),
                    ..self
                },
                None => self,
            },
            _ => self,
        }
    }

    /// The text that an event adds to the buffer, or why there is none.
    pub open spec fn received(self, event: EventView) -> Result<Seq<char>, DeviceError> {
        match event {
            EventView::Keys(keys) => Ok(typed_text(keys)),
            EventView::Received(buf, outcome) => match received_count(outcome, buf.len()) {
                Some(n) => Ok(complete_text(self.undecoded + buf.take(n as int))),
                None => Err(outcome->Err_0),
            },
            _ => Ok(seq![]),
        }
    }

    /// The session without any input from a partner.
    pub open spec fn drained(self, who: ChatParticipant) -> SessionView {
        match who {
            ChatParticipant::Local => SessionView { console: seq![], ..self },
            ChatParticipant::Remote => SessionView { serial: seq![], undecoded: seq![], ..self },
        }
    }

    /// The session without the text that was received from a partner.
    pub open spec fn taken(self, who: ChatParticipant) -> SessionView {
        match who {
            ChatParticipant::Local => SessionView { console: seq![], ..self },
            ChatParticipant::Remote => SessionView { serial: seq![], ..self },
        }
    }

    /// The session after the latest input at a prompt, which is in the buffer
    /// already and stays there. A complete line is ended on the screen.
    pub open spec fn prompted(
        self,
        who: ChatParticipant,
        question: Question,
        visible: nat,
        latest: Seq<char>,
        rest: Seq<TaskView>,
    ) -> SessionView {
        let echo = TaskView::Write(who, echo_text(who, accepted_input(visible, latest)));
        if has_linebreak(self.buffer(who)) {
            self.with_agenda(seq![echo, TaskView::EndLine(who, question)] + rest)
        } else {
            self.with_agenda(
                seq![
                    echo,
                    TaskView::Stall,
                    TaskView::Read(who, question, visible_after(visible, latest)),
                ] + rest,
            )
        }
    }

    /// The session after a line was ended on the screen. The line is consumed,
    /// together with what follows it.
    pub open spec fn line_ended(
        self,
        who: ChatParticipant,
        question: Question,
        rest: Seq<TaskView>,
    ) -> SessionView {
        let line = stripped(first_line(self.buffer(who)));
        self.taken(who).with_agenda(answer_tasks(self.handles, who, question, line) + rest)
    }

    /// The session after what was received from a partner went into the
    /// conversation.
    pub open spec fn heard(self, who: ChatParticipant) -> SessionView {
        SessionView {
            conversation: self.conversation.heard(who, self.buffer(who)),
            ..self.taken(who)
        }
    }

    /// The session after the first of its tasks has ended with an event. What
    /// could not be done ends the chat.
    pub open spec fn after(self, event: EventView) -> SessionView {
        let rest = self.agenda.skip(1);
        if event is Failed {
            self.failed(ChatError::ActionFailed)
        } else {
            match self.agenda[0] {
                TaskView::Describe(i) => self.with_agenda(
                    seq![
                        TaskView::Write(
                            ChatParticipant::Local,
                            handle_line_text(i as nat, event->Described_0),
                        ),
                    ] + rest,
                ),
                TaskView::Drain(who) => match self.received(event) {
                    Ok(_) => self.receiving(event).drained(who).with_agenda(rest),
                    Err(err) => self.failed(ChatError::Device(err)),
                },
                TaskView::Read(who, question, visible) => match self.received(event) {
                    Ok(latest) => self.receiving(event).prompted(
                        who,
                        question,
                        visible,
                        latest,
                        rest,
                    ),
                    Err(err) => self.failed(ChatError::Device(err)),
                },
                TaskView::EndLine(who, question) => self.line_ended(who, question, rest),
                TaskView::Listen(who) => match self.received(event) {
                    Ok(_) => self.receiving(event).heard(who).with_agenda(rest),
                    Err(err) => self.failed(ChatError::Device(err)),
                },
                _ => self.with_agenda(rest),
            }
        }
    }
}

/// An input as a partner sees it.
pub open spec fn echo_text(who: ChatParticipant, input: Seq<char>) -> Seq<char> {
    match who {
        ChatParticipant::Local => input,
        ChatParticipant::Remote => erases_spelled_out(input),
    }
}

/// A chat between the user of the console and the user of the serial device.
#[derive(Debug)]
pub struct Session {
    agenda: Vec<Task>,
    console: ConsoleBackend,
    serial: SerialBackend,
    handles: usize,
    conversation: Conversation,
    screen: Option<String>,
}

impl View for Session {
    type V = SessionView;

    closed spec fn view(&self) -> SessionView {
        SessionView {
            agenda: tasks_view(self.agenda@),
            console: self.console.buffered(),
            serial: self.serial.buffered(),
            undecoded: self.serial.undecoded(),
            handles: self.handles as nat,
            conversation: self.conversation@,
            screen: match self.screen {
                Some(text) => Some(text@),
                None => None,
            },
        }
    }
}

impl Session {
    /// The action that is to be performed next.
    pub fn action(&self) -> (action: Action)
        requires
            self@.wf(),
        ensures
            action@ == action_for(self@.agenda[0]),
    {
        assert(self@.agenda[0] == self.agenda@[0]@);
        match &self.agenda[0] {
            Task::Write(who, text) => Action::Write(*who, text.clone()),
            Task::ClearScreen(who) => Action::ClearScreen(*who),
            Task::Describe(i) => Action::Describe(*i),
            Task::Drain(who) => Action::Poll(*who),
            Task::Read(who, _, _) => Action::Poll(*who),
            Task::EndLine(who, _) => Action::Write(*who, "\n".to_owned()),
            Task::Listen(who) => Action::Poll(*who),
            Task::Stall => Action::Stall(STALL_MILLIS),
            Task::Open(i) => Action::Open(*i),
            Task::Fail(err) => Action::Fail(*err),
        }
    }

    /// Whether an event says how the action ended that was to be performed.
    pub fn expects(&self, event: &Event) -> (fits: bool)
        requires
            self@.wf(),
        ensures
            fits == event_fits(action_for(self@.agenda[0]), event@),
    {
        match (self.action(), event) {
            (Action::Fail(_), _) => false,
            (_, Event::Failed) => true,
            (Action::Describe(_), Event::Described(_)) => true,
            (Action::Poll(ChatParticipant::Local), Event::Keys(keys)) => all_keys_valid(keys),
            (
                Action::Poll(ChatParticipant::Remote),
                Event::Received(buf, outcome),
            ) => match outcome {
                Ok(_) => true,
                Err(err) => err.status != status_timeout() || err.count <= buf.len(),
            },
            (Action::Write(_, _), Event::Done) => true,
            (Action::ClearScreen(_), Event::Done) => true,
            (Action::Stall(_), Event::Done) => true,
            (Action::Open(_), Event::Done) => true,
            _ => false,
        }
    }

    /// Starts the next round of the chat.
    fn next_round(&mut self)
        ensures
            final(self)@ == old(self)@.next_round(),
    {
        let mut listen: Vec<Task> = Vec::new();
        listen.push(Task::Listen(ChatParticipant::Local));
        listen.push(Task::Listen(ChatParticipant::Remote));
        listen.push(Task::Stall);
        proof {
            assert(tasks_view(listen@) =~= listen_tasks());
        }
        let screen = self.conversation.screen();
        let needs_refresh = match &self.screen {
            Some(shown) => !(*shown == screen),
            None => true,
        };
        if needs_refresh {
            let mut draw: Vec<Task> = Vec::new();
            draw.push(Task::ClearScreen(ChatParticipant::Local));
            draw.push(Task::ClearScreen(ChatParticipant::Remote));
            draw.push(Task::Write(ChatParticipant::Local, screen.clone()));
            draw.push(Task::Write(ChatParticipant::Remote, screen.clone()));
            proof {
                assert(tasks_view(draw@) =~= draw_tasks(screen@));
            }
            self.agenda = followed_by(draw, listen);
            self.screen = Some(screen);
        } else {
            self.agenda = listen;
        }
    }

    /// Replaces what is to be done, and starts the next round of the chat where
    /// nothing is.
    fn set_agenda(&mut self, tasks: Vec<Task>)
        ensures
            final(self)@ == old(self)@.with_agenda(tasks_view(tasks@)),
    {
        if tasks.len() == 0 {
            self.next_round();
        } else {
            self.agenda = tasks;
        }
    }

    /// Gives up.
    fn fail(&mut self, err: ChatError)
        ensures
            final(self)@ == old(self)@.failed(err),
    {
        let tasks = followed_by_one(no_tasks(), Task::Fail(err));
        proof {
            assert(tasks_view(tasks@) =~= seq![TaskView::Fail(err)]);
        }
        self.set_agenda(tasks);
    }

    /// Takes what an event brings from a partner into the buffers and returns
    /// the text that is new.
    fn receive(&mut self, event: &Event) -> (new: Result<String, DeviceError>)
        requires
            event@ matches EventView::Keys(keys) ==> keys_valid(keys),
            event@ matches EventView::Received(buf, outcome) ==> (received_count(
                outcome,
                buf.len(),
            ) matches Some(n) ==> n <= buf.len()),
        ensures
            final(self)@ == old(self)@.receiving(event@),
            match old(self)@.received(event@) {
                Ok(text) => new matches Ok(s) && s@ == text,
                Err(err) => new == Err::<String, DeviceError>(err),
            },
    {
        match event {
            Event::Keys(keys) => Ok(self.console.poll(keys)),
            Event::Received(buf, outcome) => self.serial.poll(buf.as_slice(), *outcome),
            _ => Ok(String::new()),
        }
    }

    /// Goes on after input at a prompt.
    fn prompted(
        &mut self,
        who: ChatParticipant,
        question: Question,
        visible: usize,
        latest: String,
        rest: Vec<Task>,
    )
        requires
            visible + visible_count(latest@) <= usize::MAX,
        ensures
            final(self)@ == old(self)@.prompted(
                who,
                question,
                visible as nat,
                latest@,
                tasks_view(rest@),
            ),
    {
        let step = match who {
            ChatParticipant::Local => prompt_user(&self.console, visible, latest),
            ChatParticipant::Remote => prompt_user(&self.serial, visible, latest),
        };
        match step {
            PromptStep::Pending { echo, visible_chars_n } => {
                let mut tasks: Vec<Task> = Vec::new();
                tasks.push(Task::Write(who, echo));
                tasks.push(Task::Stall);
                tasks.push(Task::Read(who, question, visible_chars_n));
                proof {
                    assert(tasks_view(tasks@) =~= seq![
                        TaskView::Write(who, echo@),
                        TaskView::Stall,
                        TaskView::Read(who, question, visible_chars_n as nat),
                    ]);
                }
                self.set_agenda(followed_by(tasks, rest));
            },
            PromptStep::Complete { echo } => {
                let mut tasks: Vec<Task> = Vec::new();
                tasks.push(Task::Write(who, echo));
                tasks.push(Task::EndLine(who, question));
                proof {
                    assert(tasks_view(tasks@) =~= seq![
                        TaskView::Write(who, echo@),
                        TaskView::EndLine(who, question),
                    ]);
                }
                self.set_agenda(followed_by(tasks, rest));
            },
        }
    }

    /// Goes on after an entered line was ended on the screen.
    fn line_ended(&mut self, who: ChatParticipant, question: Question, rest: Vec<Task>)
        requires
            has_linebreak(old(self)@.buffer(who)),
        ensures
            final(self)@ == old(self)@.line_ended(who, question, tasks_view(rest@)),
    {
        let line = match who {
            ChatParticipant::Local => take_line(&mut self.console),
            ChatParticipant::Remote => take_line(&mut self.serial),
        };
        let tasks = answered(self.handles, who, question, line.as_str());
        self.set_agenda(followed_by(tasks, rest));
    }

    /// Takes what was received from a partner into the conversation.
    fn hear(&mut self, who: ChatParticipant)
        ensures
            final(self)@ == old(self)@.heard(who),
    {
        let text = match who {
            ChatParticipant::Local => take_text(&mut self.console),
            ChatParticipant::Remote => take_text(&mut self.serial),
        };
        self.conversation.hear(who, text.as_str());
    }

    /// Goes on after the action has ended.
    pub fn advance(&mut self, event: Event)
        requires
            old(self)@.wf(),
            event_fits(action_for(old(self)@.agenda[0]), event@),
        ensures
            final(self)@ == old(self)@.after(event@),
            final(self)@.wf(),
    {
        let ghost before = self@;
        proof {
            assert(before.agenda[0] == self.agenda@[0]@);
            assert(before.can_do(0));
            law_session_stays_well_formed(before, event@);
        }
        if let Event::Failed = event {
            self.fail(ChatError::ActionFailed);
            return ;
        }
        let task = self.agenda.remove(0);
        let mut rest: Vec<Task> = Vec::new();
        rest.append(&mut self.agenda);
        proof {
            assert(tasks_view(rest@) =~= before.agenda.skip(1));
        }
        match task {
            Task::Describe(i) => {
                if let Event::Described(device_path) = event {
                    let line = handle_line(i, device_path.as_str());
                    let tasks = followed_by_one(
                        no_tasks(),
                        Task::Write(ChatParticipant::Local, line),
                    );
                    proof {
                        assert(tasks_view(tasks@) =~= seq![
                            TaskView::Write(ChatParticipant::Local, line@),
                        ]);
                    }
                    self.set_agenda(followed_by(tasks, rest));
                }
            },
            Task::Drain(who) => {
                match self.receive(&event) {
                    Ok(_) => {
                        match who {
                            ChatParticipant::Local => self.console.clear_buffer(),
                            ChatParticipant::Remote => self.serial.clear_buffer(),
                        }
                        self.set_agenda(rest);
                    },
                    Err(err) => self.fail(ChatError::Device(err)),
                }
            },
            Task::Read(who, question, visible) => {
                match self.receive(&event) {
                    Ok(latest) => {
                        let received: usize = match who {
                            ChatParticipant::Local => self.console.read_buffer().unicode_len(),
                            ChatParticipant::Remote => self.serial.read_buffer().unicode_len(),
                        };
                        proof {
                            assert(visible + latest@.len() <= received);
                            lemma_visible_count_bound(latest@);
                        }
                        self.prompted(who, question, visible, latest, rest);
                    },
                    Err(err) => self.fail(ChatError::Device(err)),
                }
            },
            Task::EndLine(who, question) => self.line_ended(who, question, rest),
            Task::Listen(who) => {
                match self.receive(&event) {
                    Ok(_) => {
                        self.hear(who);
                        self.set_agenda(rest);
                    },
                    Err(err) => self.fail(ChatError::Device(err)),
                }
            },
            _ => self.set_agenda(rest),
        }
    }
}

/// What the firmware says of itself.
#[derive(Debug)]
pub struct Firmware {
    /// The revision of UEFI, the major number in the upper half.
    pub revision: u32,
    /// Who made the firmware.
    pub vendor: String,
    /// The version of the firmware.
    pub version: u32,
}

/// The line in which the firmware is described.
pub open spec fn firmware_text(firmware: Firmware) -> Seq<char> {
    "UEFI revision="@ + revision_display(firmware.revision) + ", vendor="@ + firmware.vendor@
        + ", version="@ + decimal(firmware.version as nat) + "\n"@
}

/// Formats the line in which the firmware is described.
pub fn firmware_line(firmware: &Firmware) -> (line: String)
    ensures
        line@ == firmware_text(*firmware),
{
    let mut line: String = "UEFI revision=".to_owned();
    line.append(revision_text(firmware.revision).as_str());
    line.append(", vendor=");
    line.append(firmware.vendor.as_str());
    line.append(", version=");
    push_decimal(&mut line, firmware.version as usize);
    line.append("\n");
    line
}

/// Forgetting what was on the screens and in the buffers before the chat.
pub open spec fn clear_tasks() -> Seq<TaskView> {
    seq![
        TaskView::ClearScreen(ChatParticipant::Local),
        TaskView::Drain(ChatParticipant::Local),
        TaskView::ClearScreen(ChatParticipant::Remote),
        TaskView::Drain(ChatParticipant::Remote),
    ]
}

/// Welcoming both partners.
pub open spec fn welcome_tasks(firmware: Firmware) -> Seq<TaskView> {
    broadcast_tasks("Welcome to UEFI Serial Chat\n"@, both()) + (broadcast_tasks(
        firmware_text(firmware),
        both(),
    ) + broadcast_tasks("Chat will begin shortly ...\n"@, both()))
}

/// Asking a partner for a name while the other one waits.
pub open spec fn name_tasks(who: ChatParticipant, other: ChatParticipant) -> Seq<TaskView> {
    seq![
        TaskView::Write(other, "Other user is selecting their name, please wait ...\n"@),
    ] + ask_tasks(who, Question::Username)
}

/// All that comes before the chat itself, with some serial devices to choose
/// from.
pub open spec fn opening_tasks(handles: nat, firmware: Firmware) -> Seq<TaskView> {
    select_tasks(handles) + (clear_tasks() + (welcome_tasks(firmware) + (name_tasks(
        ChatParticipant::Local,
        ChatParticipant::Remote,
    ) + name_tasks(ChatParticipant::Remote, ChatParticipant::Local))))
}

/// Asks a partner for a name while the other one waits.
fn ask_name(who: ChatParticipant, other: ChatParticipant) -> (tasks: Vec<Task>)
    ensures
        tasks_view(tasks@) == name_tasks(who, other),
{
    let notice = "Other user is selecting their name, please wait ...\n".to_owned();
    let tasks = followed_by_one(no_tasks(), Task::Write(other, notice));
    proof {
        assert(tasks_view(tasks@) =~= seq![TaskView::Write(other, notice@)]);
    }
    followed_by(tasks, ask(who, Question::Username))
}

/// Starts a chat with one of so many serial devices.
///
/// This expects that the UEFI console is already disconnected from any serial
/// handle.
///
/// This machine is `[LOCAL]` and the data received via serial is `[REMOTE]`.
pub fn start_chat(handles: usize, firmware: &Firmware) -> (session: Result<Session, ChatError>)
    ensures
        handles == 0 ==> session == Err::<Session, ChatError>(ChatError::NoSerialHandle),
        handles > 0 ==> {
            &&& session matches Ok(s)
            &&& s@ == (SessionView {
                agenda: opening_tasks(handles as nat, *firmware),
                console: seq![],
                serial: seq![],
                undecoded: seq![],
                handles: handles as nat,
                conversation: ConversationView::empty(),
                screen: None,
            })
            &&& s@.wf()
        },
{
    if handles == 0 {
        return Err(ChatError::NoSerialHandle);
    }
    // Clear any remaining data.
    let mut clear: Vec<Task> = Vec::new();
    clear.push(Task::ClearScreen(ChatParticipant::Local));
    clear.push(Task::Drain(ChatParticipant::Local));
    clear.push(Task::ClearScreen(ChatParticipant::Remote));
    clear.push(Task::Drain(ChatParticipant::Remote));
    proof {
        assert(tasks_view(clear@) =~= clear_tasks());
    }
    // Welcome message
    let welcome = followed_by(
        broadcast_to_both("Welcome to UEFI Serial Chat\n"),
        followed_by(
            broadcast_to_both(firmware_line(firmware).as_str()),
            broadcast_to_both("Chat will begin shortly ...\n"),
        ),
    );
    // User name prompts
    let names = followed_by(
        ask_name(ChatParticipant::Local, ChatParticipant::Remote),
        ask_name(ChatParticipant::Remote, ChatParticipant::Local),
    );
    let agenda = followed_by(
        select_serial_handle(handles),
        followed_by(clear, followed_by(welcome, names)),
    );
    let session = Session {
        agenda,
        console: ConsoleBackend::new(),
        serial: SerialBackend::new(),
        handles,
        conversation: Conversation::new(),
        screen: None,
    };
    proof {
        lemma_fresh_tasks_well_formed(session@);
    }
    Ok(session)
}

impl ChatError {
    /// What the user is told where nothing outside says why the chat ended.
    pub fn message(self) -> (message: Option<String>)
        ensures
            match self {
                ChatError::NoSerialHandle => message matches Some(m) && m@
                    == "No Serial handle available!"@,
                ChatError::NoHandles => message matches Some(m) && m@ == "no handles available!"@,
                ChatError::NoSuchHandle(_) => message matches Some(m) && m@
                    == "no handle with this number!"@,
                _ => message is None,
            },
    {
        match self {
            ChatError::NoSerialHandle => Some("No Serial handle available!".to_owned()),
            ChatError::NoHandles => Some("no handles available!".to_owned()),
            ChatError::NoSuchHandle(_) => Some("no handle with this number!".to_owned()),
            _ => None,
        }
    }
}

/// Whether a task was not begun, and uses no serial device that is not there.
pub open spec fn is_fresh(task: TaskView, handles: nat) -> bool {
    match task {
        TaskView::Read(_, _, visible) => visible == 0,
        TaskView::EndLine(_, _) => false,
        TaskView::Describe(k) => k < handles,
        TaskView::Open(k) => k < handles,
        _ => true,
    }
}

/// Tasks that were not begun keep a session well formed, whatever was received.
proof fn lemma_fresh_tasks_well_formed(s: SessionView)
    requires
        s.agenda.len() > 0,
        forall|i: int| 0 <= i < s.agenda.len() ==> is_fresh(#[trigger] s.agenda[i], s.handles),
    ensures
        s.wf(),
{
    assert forall|i: int| 0 <= i < s.agenda.len() implies #[trigger] s.can_do(i) by {
        assert(is_fresh(s.agenda[i], s.handles));
    }
}

/// Where a round of the chat follows, the session is well formed.
proof fn lemma_next_round_well_formed(s: SessionView)
    ensures
        s.next_round().wf(),
{
    lemma_fresh_tasks_well_formed(s.next_round());
}

/// However an action ends, the session stays well formed: there is something to
/// do next, a serial device that is to be used is there, and no input that is on
/// the screen is lost.
pub proof fn law_session_stays_well_formed(s: SessionView, event: EventView)
    requires
        s.wf(),
        event_fits(action_for(s.agenda[0]), event),
    ensures
        s.after(event).wf(),
        s.after(event).handles == s.handles,
{
    let t = s.after(event);
    let rest = s.agenda.skip(1);
    assert(s.can_do(0));
    assert forall|i: int| 0 <= i < rest.len() implies #[trigger] rest[i] == s.agenda[i + 1] by {}
    if event is Failed {
        lemma_fresh_tasks_well_formed(t);
    } else if is_passive(s.agenda[0]) {
        if rest.len() == 0 {
            lemma_next_round_well_formed(s);
        } else {
            assert forall|i: int| 0 <= i < t.agenda.len() implies #[trigger] t.can_do(i) by {
                assert(s.can_do(i + 1));
                if s.passive_before(i + 1) {
                    assert forall|k: int| 0 <= k < i implies is_passive(
                        #[trigger] t.agenda[k],
                    ) by {
                        assert(is_passive(s.agenda[k + 1]));
                    }
                }
            }
        }
    } else {
        assert forall|i: int| 0 <= i < rest.len() implies is_fresh(
            #[trigger] rest[i],
            s.handles,
        ) by {
            assert(s.can_do(i + 1));
            assert(!is_passive(s.agenda[0]));
        }
        match s.agenda[0] {
            TaskView::Read(who, question, visible) => {
                match s.received(event) {
                    Ok(latest) => {
                        let u = s.receiving(event);
                        lemma_visible_count_bound(latest);
                        law_erases_only_own_characters(visible, latest);
                        assert(u.buffer(who) == s.buffer(who) + latest);
                        let n: int = if has_linebreak(u.buffer(who)) { 2 } else { 3 };
                        assert forall|i: int| 0 <= i < t.agenda.len() implies
                            #[trigger] t.can_do(i) by {
                            if i >= n {
                                assert(t.agenda[i] == rest[i - n]);
                            }
                        }
                    },
                    Err(_) => {
                        lemma_fresh_tasks_well_formed(t);
                    },
                }
            },
            TaskView::EndLine(who, question) => {
                let line = stripped(first_line(s.buffer(who)));
                let answer = answer_tasks(s.handles, who, question, line);
                assert forall|i: int| 0 <= i < t.agenda.len() implies is_fresh(
                    #[trigger] t.agenda[i],
                    t.handles,
                ) by {
                    if i >= answer.len() {
                        assert(t.agenda[i] == rest[i - answer.len()]);
                    }
                }
                lemma_fresh_tasks_well_formed(t);
            },
            TaskView::Describe(_) => {
                assert forall|i: int| 0 <= i < t.agenda.len() implies is_fresh(
                    #[trigger] t.agenda[i],
                    t.handles,
                ) by {
                    if i >= 1 {
                        assert(t.agenda[i] == rest[i - 1]);
                    }
                }
                lemma_fresh_tasks_well_formed(t);
            },
            _ => {
                lemma_fresh_tasks_well_formed(t);
            },
        }
    }
}

/// A failure ends the chat: nothing is done after it.
pub proof fn law_failure_ends_chat(s: SessionView, event: EventView)
    requires
        s.wf(),
        event_fits(action_for(s.agenda[0]), EventView::Failed),
    ensures
        action_for(s.after(EventView::Failed).agenda[0]) == ActionView::Fail(
            ChatError::ActionFailed,
        ),
        !event_fits(action_for(s.after(EventView::Failed).agenda[0]), event),
{
}

/// A failure loses nothing that was received or said.
pub proof fn law_failure_keeps_input(s: SessionView)
    ensures
        s.after(EventView::Failed).console == s.console,
        s.after(EventView::Failed).serial == s.serial,
        s.after(EventView::Failed).undecoded == s.undecoded,
        s.after(EventView::Failed).conversation == s.conversation,
{
}

/// The session after some of its tasks were simply done.
pub open spec fn after_done(s: SessionView, n: nat) -> SessionView
    decreases n,
{
    if n == 0 {
        s
    } else {
        after_done(s, (n - 1) as nat).after(EventView::Done)
    }
}

/// A message that is broadcast reaches the partners one after the other: once
/// it was written to the first `n` of them, the next one is written to, and
/// after the last one whatever comes then.
pub proof fn law_broadcast_in_order(
    s: SessionView,
    msg: Seq<char>,
    backends: Seq<ChatParticipant>,
    rest: Seq<TaskView>,
    n: nat,
)
    requires
        s.agenda == broadcast_tasks(msg, backends) + rest,
        n <= backends.len(),
        rest.len() > 0,
    ensures
        after_done(s, n) == s.with_agenda(s.agenda.skip(n as int)),
        n < backends.len() ==> action_for(after_done(s, n).agenda[0]) == ActionView::Write(
            backends[n as int],
            msg,
        ),
        n == backends.len() ==> after_done(s, n).agenda == rest,
    decreases n,
{
    if n == 0 {
        assert(s.agenda.skip(0) =~= s.agenda);
    } else {
        let t = after_done(s, (n - 1) as nat);
        law_broadcast_in_order(s, msg, backends, rest, (n - 1) as nat);
        assert(t.agenda[0] == s.agenda[n - 1]);
        assert(t.agenda.skip(1) =~= s.agenda.skip(n as int));
    }
    assert(n == backends.len() ==> s.agenda.skip(n as int) =~= rest);
}

/// A user who types the number under which a serial device is listed gets that
/// device.
pub proof fn law_listed_number_opens_device(handles: nat, who: ChatParticipant, i: usize)
    requires
        i < handles,
    ensures
        answer_tasks(handles, who, Question::Handle, decimal(i as nat)) == seq![TaskView::Open(i)],
{
    law_shown_number_reads_back(i);
}

/// No device is opened but one that was there to choose from.
pub proof fn law_opened_device_was_listed(s: SessionView, i: usize)
    requires
        s.wf(),
        action_for(s.agenda[0]) == ActionView::Open(i),
    ensures
        i < s.handles,
{
    assert(s.can_do(0));
}

/// While no line is complete, nothing that a partner typed is lost, and the
/// session goes on to show it and to read more.
pub proof fn law_prompt_keeps_input(s: SessionView, event: EventView)
    requires
        s.wf(),
        s.agenda[0] is Read,
        event_fits(action_for(s.agenda[0]), event),
        event !is Failed,
        s.received(event) is Ok,
        !has_linebreak(s.receiving(event).buffer(s.agenda[0]->Read_0)),
    ensures
        s.after(event).buffer(s.agenda[0]->Read_0) == s.buffer(s.agenda[0]->Read_0) + s.received(
            event,
        )->Ok_0,
        action_for(s.after(event).agenda[0]) is Write,
        action_for(s.after(event).agenda[1]) is Stall,
        action_for(s.after(event).agenda[2]) == action_for(s.agenda[0]),
{
}

/// Whether an event completes the line that a partner is asked for.
pub open spec fn completes_line(s: SessionView, event: EventView) -> bool {
    &&& s.agenda[0] is Read
    &&& event_fits(action_for(s.agenda[0]), event)
    &&& event !is Failed
    &&& s.received(event) is Ok
    &&& has_linebreak(s.receiving(event).buffer(s.agenda[0]->Read_0))
}

/// The session after a line was completed, shown and ended on the screen.
pub open spec fn after_line(s: SessionView, event: EventView) -> SessionView {
    s.after(event).after(EventView::Done).after(EventView::Done)
}

/// A complete line is shown, then ended on the screen, and taken only after
/// that. Where one of the two fails, all that was received is in the buffer
/// still.
pub proof fn law_line_is_taken_once_shown(s: SessionView, event: EventView)
    requires
        s.wf(),
        completes_line(s, event),
    ensures
        ({
            let who = s.agenda[0]->Read_0;
            let question = s.agenda[0]->Read_1;
            let visible = s.agenda[0]->Read_2;
            let latest = s.received(event)->Ok_0;
            let buffer = s.buffer(who) + latest;
            let shown = s.after(event);
            let ended = shown.after(EventView::Done);
            &&& action_for(shown.agenda[0]) == ActionView::Write(
                who,
                echo_text(who, accepted_input(visible, latest)),
            )
            &&& shown.buffer(who) == buffer
            &&& shown.after(EventView::Failed).buffer(who) == buffer
            &&& action_for(ended.agenda[0]) == ActionView::Write(who, "\n"@)
            &&& ended.buffer(who) == buffer
            &&& ended.after(EventView::Failed).buffer(who) == buffer
            &&& after_line(s, event).buffer(who) == Seq::<char>::empty()
            &&& after_line(s, event).agenda == answer_tasks(
                s.handles,
                who,
                question,
                stripped(first_line(buffer)),
            ) + s.agenda.skip(1)
        }),
{
    let who = s.agenda[0]->Read_0;
    let question = s.agenda[0]->Read_1;
    let rest = s.agenda.skip(1);
    let shown = s.after(event);
    let ended = shown.after(EventView::Done);
    assert(ended.agenda =~= seq![TaskView::EndLine(who, question)] + rest);
    assert(ended.agenda.skip(1) =~= rest);
}

/// A name that a partner enters is announced to both, after the entered line
/// was ended on the screen.
pub proof fn law_username_is_announced(s: SessionView, event: EventView)
    requires
        s.wf(),
        completes_line(s, event),
        s.agenda[0]->Read_1 == Question::Username,
    ensures
        ({
            let who = s.agenda[0]->Read_0;
            let name = stripped(first_line(s.buffer(who) + s.received(event)->Ok_0));
            after_line(s, event).agenda == broadcast_tasks(announcement_text(who, name), both())
                + s.agenda.skip(1)
        }),
{
    law_line_is_taken_once_shown(s, event);
}

/// A line that is no number has the user asked for the device again, and
/// nothing else changes.
pub proof fn law_asks_until_number(s: SessionView, event: EventView)
    requires
        s.wf(),
        completes_line(s, event),
        s.agenda[0]->Read_1 == Question::Handle,
        parsed_usize(
            stripped(first_line(s.buffer(s.agenda[0]->Read_0) + s.received(event)->Ok_0)),
        ) is None,
    ensures
        after_line(s, event).agenda == ask_tasks(s.agenda[0]->Read_0, Question::Handle)
            + s.agenda.skip(1),
        after_line(s, event).buffer(s.agenda[0]->Read_0) == Seq::<char>::empty(),
{
    law_line_is_taken_once_shown(s, event);
}

/// A number that no serial device has ends the chat, and no device is opened.
pub proof fn law_unknown_device_ends_chat(s: SessionView, event: EventView, i: usize)
    requires
        s.wf(),
        completes_line(s, event),
        s.agenda[0]->Read_1 == Question::Handle,
        parsed_usize(
            stripped(first_line(s.buffer(s.agenda[0]->Read_0) + s.received(event)->Ok_0)),
        ) == Some(i),
        i >= s.handles,
    ensures
        action_for(after_line(s, event).agenda[0]) == ActionView::Fail(ChatError::NoSuchHandle(i)),
{
    law_line_is_taken_once_shown(s, event);
}

/// Once nothing is left to be done before it, the chat itself begins: both
/// partners see the conversation.
pub proof fn law_chat_begins(s: SessionView)
    requires
        s.agenda.len() == 1,
        is_passive(s.agenda[0]),
        s.screen is None,
    ensures
        s.after(EventView::Done).agenda == draw_tasks(s.conversation.screen()) + listen_tasks(),
{
    assert(s.agenda.skip(1) =~= Seq::<TaskView>::empty());
}

/// Both screens are drawn with the same text, and then both partners are
/// listened to.
pub proof fn law_both_screens_are_drawn(s: SessionView, screen: Seq<char>)
    requires
        s.agenda == draw_tasks(screen) + listen_tasks(),
    ensures
        action_for(s.agenda[0]) == ActionView::ClearScreen(ChatParticipant::Local),
        action_for(after_done(s, 1).agenda[0]) == ActionView::ClearScreen(ChatParticipant::Remote),
        action_for(after_done(s, 2).agenda[0]) == ActionView::Write(ChatParticipant::Local, screen),
        action_for(after_done(s, 3).agenda[0]) == ActionView::Write(
            ChatParticipant::Remote,
            screen,
        ),
        after_done(s, 4) == (SessionView { agenda: listen_tasks(), ..s }),
{
    reveal_with_fuel(after_done, 5);
    let all = s.agenda;
    assert(after_done(s, 1).agenda =~= all.skip(1));
    assert(after_done(s, 2).agenda =~= all.skip(2));
    assert(after_done(s, 3).agenda =~= all.skip(3));
    assert(after_done(s, 4).agenda =~= all.skip(4));
    assert(all.skip(4) =~= listen_tasks());
}

/// Whether what the partners type can be received in a round of the chat.
pub open spec fn round_is_heard(s: SessionView, local: EventView, remote: EventView) -> bool {
    &&& event_fits(ActionView::Poll(ChatParticipant::Local), local)
    &&& event_fits(ActionView::Poll(ChatParticipant::Remote), remote)
    &&& local !is Failed
    &&& remote !is Failed
    &&& s.received(local) is Ok
    &&& s.received(remote) is Ok
}

/// The conversation after a round of the chat.
pub open spec fn heard_in_round(
    s: SessionView,
    local: EventView,
    remote: EventView,
) -> ConversationView {
    s.conversation.heard(ChatParticipant::Local, s.console + s.received(local)->Ok_0).heard(
        ChatParticipant::Remote,
        s.serial + s.received(remote)->Ok_0,
    )
}

/// The session after both partners were listened to for a moment.
pub open spec fn after_listening(s: SessionView, local: EventView, remote: EventView) -> SessionView {
    s.after(local).after(remote).after(EventView::Done)
}

/// The session after a round of the chat: both partners were listened to, and
/// the screens drawn anew where they have to be.
pub open spec fn after_chat_round(
    s: SessionView,
    local: EventView,
    remote: EventView,
) -> SessionView {
    let heard = after_listening(s, local, remote);
    if heard.agenda == listen_tasks() {
        heard
    } else {
        after_done(heard, 4)
    }
}

/// In a round of the chat, what both partners type goes into the conversation,
/// and both are shown all messages and what is being typed, unless that is what
/// they see already.
pub proof fn law_round_shows_conversation(s: SessionView, local: EventView, remote: EventView)
    requires
        s.agenda == listen_tasks(),
        round_is_heard(s, local, remote),
    ensures
        ({
            let conversation = heard_in_round(s, local, remote);
            let heard = after_listening(s, local, remote);
            let t = after_chat_round(s, local, remote);
            &&& heard.agenda == if s.screen == Some(conversation.screen()) {
                listen_tasks()
            } else {
                draw_tasks(conversation.screen()) + listen_tasks()
            }
            &&& t.conversation == conversation
            &&& t.screen == Some(conversation.screen())
            &&& t.agenda == listen_tasks()
            &&& t.console == Seq::<char>::empty()
            &&& t.serial == Seq::<char>::empty()
        }),
{
    let conversation = heard_in_round(s, local, remote);
    let listened = s.after(local);
    let both_heard = listened.after(remote);
    let heard = both_heard.after(EventView::Done);
    assert(listened.agenda =~= seq![TaskView::Listen(ChatParticipant::Remote), TaskView::Stall]);
    assert(both_heard.agenda =~= seq![TaskView::Stall]);
    assert(both_heard.agenda.skip(1) =~= Seq::<TaskView>::empty());
    assert(both_heard.conversation == conversation);
    if s.screen != Some(conversation.screen()) {
        assert(heard.agenda.len() != listen_tasks().len());
        law_both_screens_are_drawn(heard, conversation.screen());
    }
}

/// The session after some rounds of the chat.
pub open spec fn after_chat_rounds(
    s: SessionView,
    rounds: Seq<(EventView, EventView)>,
) -> SessionView
    decreases rounds.len(),
{
    if rounds.len() == 0 {
        s
    } else {
        after_chat_round(
            after_chat_rounds(s, rounds.drop_last()),
            rounds.last().0,
            rounds.last().1,
        )
    }
}

/// Whether what the partners type can be received in all rounds of the chat.
pub open spec fn rounds_are_heard(s: SessionView, rounds: Seq<(EventView, EventView)>) -> bool
    decreases rounds.len(),
{
    rounds.len() > 0 ==> rounds_are_heard(s, rounds.drop_last()) && round_is_heard(
        after_chat_rounds(s, rounds.drop_last()),
        rounds.last().0,
        rounds.last().1,
    )
}

/// However long the chat goes on, what either partner types goes into the
/// conversation; both see all messages so far, in the order in which they were
/// submitted, and what is being typed; no message is ever lost; and both are
/// listened to again.
pub proof fn law_chat_shows_all_messages(s: SessionView, rounds: Seq<(EventView, EventView)>)
    requires
        s.agenda == listen_tasks(),
        s.screen == Some(s.conversation.screen()),
        rounds_are_heard(s, rounds),
    ensures
        ({
            let t = after_chat_rounds(s, rounds);
            &&& t.screen == Some(t.conversation.screen())
            &&& s.conversation.messages.is_prefix_of(t.conversation.messages)
            &&& t.agenda == listen_tasks()
            &&& rounds.len() > 0 ==> t.conversation == heard_in_round(
                after_chat_rounds(s, rounds.drop_last()),
                rounds.last().0,
                rounds.last().1,
            )
        }),
    decreases rounds.len(),
{
    if rounds.len() > 0 {
        let t = after_chat_rounds(s, rounds.drop_last());
        let (local, remote) = rounds.last();
        law_chat_shows_all_messages(s, rounds.drop_last());
        law_round_shows_conversation(t, local, remote);
        let typed = t.console + t.received(local)->Ok_0;
        law_messages_stay(t.conversation, ChatParticipant::Local, typed);
        law_messages_stay(
            t.conversation.heard(ChatParticipant::Local, typed),
            ChatParticipant::Remote,
            t.serial + t.received(remote)->Ok_0,
        );
    }
}

/// The session after one round of a prompt that did not complete the line: the
/// input was received, shown, and a moment has passed.
#[verifier::opaque]
pub open spec fn after_round(s: SessionView, event: EventView) -> SessionView {
    s.after(event).after(EventView::Done).after(EventView::Done)
}

/// The session after some rounds of a prompt that did not complete the line.
pub open spec fn after_rounds(s: SessionView, events: Seq<EventView>) -> SessionView
    decreases events.len(),
{
    if events.len() == 0 {
        s
    } else {
        after_round(after_rounds(s, events.drop_last()), events.last())
    }
}

/// What was received in some rounds of a prompt.
pub open spec fn text_of_rounds(s: SessionView, events: Seq<EventView>) -> Seq<char>
    decreases events.len(),
{
    if events.len() == 0 {
        seq![]
    } else {
        text_of_rounds(s, events.drop_last()) + after_rounds(s, events.drop_last()).received(
            events.last(),
        )->Ok_0
    }
}

/// Whether the rounds of a prompt all brought input and completed no line.
pub open spec fn rounds_are_open(s: SessionView, events: Seq<EventView>) -> bool
    decreases events.len(),
{
    events.len() > 0 ==> {
        let t = after_rounds(s, events.drop_last());
        &&& rounds_are_open(s, events.drop_last())
        &&& event_fits(action_for(s.agenda[0]), events.last())
        &&& events.last() !is Failed
        &&& t.received(events.last()) is Ok
        &&& !has_linebreak(t.receiving(events.last()).buffer(s.agenda[0]->Read_0))
    }
}

/// After a round of a prompt that did not complete the line, the same question
/// is put to the same partner, and the input is in the buffer.
#[verifier::rlimit(60)]
proof fn lemma_open_round(s: SessionView, event: EventView)
    requires
        s.wf(),
        s.agenda[0] is Read,
        event_fits(action_for(s.agenda[0]), event),
        event !is Failed,
        s.received(event) is Ok,
        !has_linebreak(s.receiving(event).buffer(s.agenda[0]->Read_0)),
    ensures
        ({
            let t = after_round(s, event);
            let who = s.agenda[0]->Read_0;
            &&& t.wf()
            &&& t.agenda[0] is Read
            &&& t.agenda[0]->Read_0 == who
            &&& t.agenda[0]->Read_1 == s.agenda[0]->Read_1
            &&& t.agenda.skip(1) == s.agenda.skip(1)
            &&& t.buffer(who) == s.buffer(who) + s.received(event)->Ok_0
        }),
{
    reveal(after_round);
    let shown = s.after(event);
    law_prompt_keeps_input(s, event);
    law_session_stays_well_formed(s, event);
    assert(shown.agenda.skip(3) =~= s.agenda.skip(1));
    let waiting = shown.after(EventView::Done);
    law_session_stays_well_formed(shown, EventView::Done);
    assert(waiting.agenda =~= shown.agenda.skip(1));
    law_session_stays_well_formed(waiting, EventView::Done);
    let next = waiting.after(EventView::Done);
    assert(next.agenda =~= shown.agenda.skip(2));
    assert(next.agenda.skip(1) =~= shown.agenda.skip(3));
}

/// Until a line is complete, a prompt collects all that arrives, and goes on
/// asking the same question of the same partner.
pub proof fn law_prompt_collects_input(s: SessionView, events: Seq<EventView>)
    requires
        s.wf(),
        s.agenda[0] is Read,
        rounds_are_open(s, events),
    ensures
        ({
            let t = after_rounds(s, events);
            let who = s.agenda[0]->Read_0;
            &&& t.wf()
            &&& t.agenda[0] is Read
            &&& t.agenda[0]->Read_0 == who
            &&& t.agenda[0]->Read_1 == s.agenda[0]->Read_1
            &&& t.agenda.skip(1) == s.agenda.skip(1)
            &&& t.buffer(who) == s.buffer(who) + text_of_rounds(s, events)
        }),
    decreases events.len(),
{
    let who = s.agenda[0]->Read_0;
    if events.len() == 0 {
        assert(s.buffer(who) + text_of_rounds(s, events) =~= s.buffer(who));
    } else {
        let t = after_rounds(s, events.drop_last());
        law_prompt_collects_input(s, events.drop_last());
        lemma_open_round(t, events.last());
        assert(after_rounds(s, events).buffer(who) =~= s.buffer(who) + text_of_rounds(s, events));
    }
}

} // verus!
