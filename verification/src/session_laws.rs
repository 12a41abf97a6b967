//! What a session does, task by task.

use crate::actions::{
    accepted_input, answer_tasks, both, law_answers, law_broadcast_reaches_everyone,
    law_every_device_is_listed, law_listed_line, law_prompt_is_not_erased, stays_behind_prompt,
    visible_after, ChatError, Question, TaskView,
};
use crate::backend::{
    keys_valid, law_console_normalizes_nothing, typed_text, ChatBackend, ConsoleBackend,
    DeviceError, Key, SerialBackend,
};
use crate::chat::{
    action_for, clear_tasks, completes_line, echo_text, event_fits, firmware_text, listen_tasks,
    name_tasks, opening_tasks, welcome_tasks, Action, ActionView, Event, EventView, Firmware,
    SessionView,
};
use crate::firmware::revision_display;
use crate::helpers::{first_line, has_linebreak, stripped, ChatParticipant};
use crate::numbers::{decimal, parsed_usize};
use crate::utf8_stream::{complete_text, law_drain_keeps_every_byte};
use vstd::prelude::*;
use vstd::string::*;
use vstd::utf8::*;

verus! {

/// Each task is done by the action that it names, on the partner or the device
/// that it names: a text is written as it is, a line is ended with a line feed,
/// and a moment is a sixtieth of a second, in whole milliseconds.
pub proof fn law_actions_do_their_tasks(
    who: ChatParticipant,
    question: Question,
    text: Seq<char>,
    i: usize,
    n: nat,
    err: ChatError,
)
    ensures
        action_for(TaskView::Write(who, text)) == ActionView::Write(who, text),
        action_for(TaskView::ClearScreen(who)) == ActionView::ClearScreen(who),
        action_for(TaskView::Describe(i)) == ActionView::Describe(i),
        action_for(TaskView::Drain(who)) == ActionView::Poll(who),
        action_for(TaskView::Read(who, question, n)) == ActionView::Poll(who),
        action_for(TaskView::EndLine(who, question)) == ActionView::Write(who, "\n"@),
        action_for(TaskView::Listen(who)) == ActionView::Poll(who),
        action_for(TaskView::Stall) == ActionView::Stall((1000u64 / 60) as u64),
        action_for(TaskView::Open(i)) == ActionView::Open(i),
        action_for(TaskView::Fail(err)) == ActionView::Fail(err),
{
}

/// An action stands for what is to be done, and an event for what happened.
pub proof fn law_actions_and_events_stand_for_themselves(
    who: ChatParticipant,
    text: String,
    i: usize,
    millis: u64,
    err: ChatError,
    keys: Vec<Key>,
    buf: Vec<u8>,
    outcome: Result<(), DeviceError>,
)
    ensures
        Action::Write(who, text)@ == ActionView::Write(who, text@),
        Action::ClearScreen(who)@ == ActionView::ClearScreen(who),
        Action::Describe(i)@ == ActionView::Describe(i),
        Action::Poll(who)@ == ActionView::Poll(who),
        Action::Stall(millis)@ == ActionView::Stall(millis),
        Action::Open(i)@ == ActionView::Open(i),
        Action::Fail(err)@ == ActionView::Fail(err),
        Event::Done@ == EventView::Done,
        Event::Described(text)@ == EventView::Described(text@),
        Event::Keys(keys)@ == EventView::Keys(keys@),
        Event::Received(buf, outcome)@ == EventView::Received(buf@, outcome),
        Event::Failed@ == EventView::Failed,
{
}

/// Every action but giving up can fail. Beyond that, the console brings any keys
/// that have a character or none, the serial device brings a buffer and how the
/// read ended, as long as it counts no more bytes than the buffer has, a device
/// is described by a text, and anything else is simply done.
pub proof fn law_which_events_fit(
    who: ChatParticipant,
    text: Seq<char>,
    i: usize,
    millis: u64,
    err: ChatError,
    event: EventView,
)
    ensures
        event_fits(ActionView::Write(who, text), event) <==> event is Failed || event is Done,
        event_fits(ActionView::ClearScreen(who), event) <==> event is Failed || event is Done,
        event_fits(ActionView::Stall(millis), event) <==> event is Failed || event is Done,
        event_fits(ActionView::Open(i), event) <==> event is Failed || event is Done,
        event_fits(ActionView::Describe(i), event) <==> event is Failed || event is Described,
        event_fits(ActionView::Poll(ChatParticipant::Local), event) <==> event is Failed || (
        event matches EventView::Keys(keys) && keys_valid(keys)),
        event_fits(ActionView::Poll(ChatParticipant::Remote), event) <==> event is Failed || (
        event matches EventView::Received(buf, outcome) && (outcome matches Err(device_err)
            ==> device_err.timed_out() ==> device_err.count <= buf.len())),
        !event_fits(ActionView::Fail(err), event),
{
}

/// What is typed on the console is added to what was received from it, and
/// nothing else changes.
pub proof fn law_keys_reach_the_console_buffer(s: SessionView, keys: Seq<Key>)
    ensures
        s.received(EventView::Keys(keys)) == Ok::<Seq<char>, DeviceError>(typed_text(keys)),
        s.receiving(EventView::Keys(keys)) == (SessionView {
            console: s.console + typed_text(keys),
            ..s
        }),
        s.buffer(ChatParticipant::Local) == s.console,
        s.buffer(ChatParticipant::Remote) == s.serial,
{
}

/// What the serial device brings is added to what was received from it, and
/// nothing else changes. No byte is lost: the new text, encoded, and the bytes
/// that wait are those that waited before and those that arrived.
pub proof fn law_bytes_reach_the_serial_buffer(
    s: SessionView,
    buf: Seq<u8>,
    outcome: Result<(), DeviceError>,
)
    requires
        event_fits(ActionView::Poll(ChatParticipant::Remote), EventView::Received(buf, outcome)),
        outcome matches Err(err) ==> err.timed_out(),
    ensures
        ({
            let arrived = match outcome {
                Ok(_) => buf,
                Err(err) => buf.take(err.count as int),
            };
            let event = EventView::Received(buf, outcome);
            let new = s.received(event)->Ok_0;
            let t = s.receiving(event);
            &&& s.received(event) is Ok
            &&& t == (SessionView { serial: s.serial + new, undecoded: t.undecoded, ..s })
            &&& encode_utf8(new) + t.undecoded == s.undecoded + arrived
            &&& new == complete_text(s.undecoded + arrived)
        }),
{
    assert(buf.take(buf.len() as int) =~= buf);
    let arrived = match outcome {
        Ok(_) => buf,
        Err(err) => buf.take(err.count as int),
    };
    law_drain_keeps_every_byte(s.undecoded + arrived);
}

/// Once something was written, cleared, opened or waited for, the next task
/// follows, and nothing else changes.
pub proof fn law_done_leads_to_the_next_task(s: SessionView)
    requires
        s.agenda.len() > 1,
        s.agenda[0] is Write || s.agenda[0] is ClearScreen || s.agenda[0] is Open || s.agenda[0]
            is Stall,
    ensures
        s.after(EventView::Done) == (SessionView { agenda: s.agenda.skip(1), ..s }),
{
}

/// Whatever fails, the chat ends with that, and nothing that was received, said
/// or shown is forgotten.
pub proof fn law_what_a_failure_leaves(s: SessionView)
    ensures
        s.after(EventView::Failed) == (SessionView {
            agenda: seq![TaskView::Fail(ChatError::ActionFailed)],
            ..s
        }),
{
}

/// A serial device that fails ends the chat with its own error.
pub proof fn law_device_error_ends_chat(s: SessionView, buf: Seq<u8>, err: DeviceError)
    requires
        s.agenda.len() > 0,
        s.agenda[0] is Drain || s.agenda[0] is Read || s.agenda[0] is Listen,
        !err.timed_out(),
    ensures
        s.after(EventView::Received(buf, Err(err))) == (SessionView {
            agenda: seq![TaskView::Fail(ChatError::Device(err))],
            ..s
        }),
{
}

/// Once a device was described, a line is written to the local user: the number
/// of that device in brackets, and then the description. Whoever answers with
/// the number in that line gets that device.
pub proof fn law_listed_line_leads_to_its_device(s: SessionView, i: usize, device_path: Seq<char>)
    requires
        s.wf(),
        s.agenda[0] == TaskView::Describe(i),
    ensures
        ({
            let t = s.after(EventView::Described(device_path));
            &&& t.agenda[0] matches TaskView::Write(ChatParticipant::Local, line)
            &&& {
                let number = line.subrange(1, line.len() - device_path.len() - 4);
                &&& line == "["@ + number + "]: "@ + device_path + "\n"@
                &&& number == decimal(i as nat)
                &&& parsed_usize(number) == Some(i)
                &&& answer_tasks(s.handles, ChatParticipant::Local, Question::Handle, number)
                    == seq![TaskView::Open(i)]
            }
            &&& t == (SessionView { agenda: seq![t.agenda[0]] + s.agenda.skip(1), ..s })
        }),
{
    assert(s.can_do(0));
    law_listed_line(i, device_path);
    law_answers(s.handles, ChatParticipant::Local, decimal(i as nat));
    reveal_strlit("[");
    let t = s.after(EventView::Described(device_path));
    let line = t.agenda[0]->Write_1;
    let number = line.subrange(1, line.len() - device_path.len() - 4);
    assert(line =~= "["@ + number + ("]: "@ + device_path + "\n"@)) by {
        assert(line =~= line.take(1) + number + line.skip(line.len() - device_path.len() - 4));
        assert(line.take(1) =~= "["@);
    }
    assert(line =~= "["@ + number + "]: "@ + device_path + "\n"@);
    assert(answer_tasks(s.handles, ChatParticipant::Local, Question::Handle, number)
        =~= seq![TaskView::Open(i)]);
    assert(t.agenda =~= seq![t.agenda[0]] + s.agenda.skip(1));
}

/// Before the chat, what a partner has typed is thrown away, the bytes that wait
/// for the rest of their character among it. The other partner's input stays.
pub proof fn law_draining_forgets_input(s: SessionView, event: EventView)
    requires
        s.agenda.len() > 1,
        s.agenda[0] is Drain,
        event_fits(action_for(s.agenda[0]), event),
        event !is Failed,
        s.received(event) is Ok,
    ensures
        s.agenda[0] == TaskView::Drain(ChatParticipant::Local) ==> s.after(event)
            == (SessionView { agenda: s.agenda.skip(1), console: seq![], ..s }),
        s.agenda[0] == TaskView::Drain(ChatParticipant::Remote) ==> s.after(event)
            == (SessionView {
            agenda: s.agenda.skip(1),
            serial: seq![],
            undecoded: seq![],
            ..s
        }),
{
}

/// A round of a prompt that completes no line shows the new input to the partner
/// who typed it, waits a moment, and listens to that partner for more. What is
/// shown never reaches into the prompt. Only what was received changes.
pub proof fn law_prompt_round(s: SessionView, event: EventView)
    requires
        s.wf(),
        s.agenda[0] is Read,
        event_fits(action_for(s.agenda[0]), event),
        event !is Failed,
        s.received(event) is Ok,
        !has_linebreak(s.receiving(event).buffer(s.agenda[0]->Read_0)),
    ensures
        ({
            let who = s.agenda[0]->Read_0;
            let question = s.agenda[0]->Read_1;
            let visible = s.agenda[0]->Read_2;
            let latest = s.received(event)->Ok_0;
            let shown = accepted_input(visible, latest);
            let t = s.after(event);
            &&& t.agenda == seq![
                TaskView::Write(who, echo_text(who, shown)),
                TaskView::Stall,
                TaskView::Read(who, question, visible_after(visible, latest)),
            ] + s.agenda.skip(1)
            &&& stays_behind_prompt(visible, shown)
            &&& t == (SessionView { agenda: t.agenda, ..s.receiving(event) })
        }),
{
    law_prompt_is_not_erased(s.agenda[0]->Read_2, s.received(event)->Ok_0);
}

/// A round of a prompt that completes a line shows the new input to the partner
/// who typed it and then ends the line. Only what was received changes.
pub proof fn law_last_prompt_round(s: SessionView, event: EventView)
    requires
        s.wf(),
        completes_line(s, event),
    ensures
        ({
            let who = s.agenda[0]->Read_0;
            let question = s.agenda[0]->Read_1;
            let visible = s.agenda[0]->Read_2;
            let shown = accepted_input(visible, s.received(event)->Ok_0);
            let t = s.after(event);
            &&& t.agenda == seq![
                TaskView::Write(who, echo_text(who, shown)),
                TaskView::EndLine(who, question),
            ] + s.agenda.skip(1)
            &&& stays_behind_prompt(visible, shown)
            &&& t == (SessionView { agenda: t.agenda, ..s.receiving(event) })
        }),
{
    law_prompt_is_not_erased(s.agenda[0]->Read_2, s.received(event)->Ok_0);
}

/// Once a line was ended, its answer leads on, and the input of the partner who
/// entered it is gone. The input of the other partner stays, and so does all
/// else.
pub proof fn law_ended_line_is_answered(s: SessionView, question: Question)
    requires
        s.agenda.len() > 0,
    ensures
        s.agenda[0] == TaskView::EndLine(ChatParticipant::Local, question) ==> s.after(
            EventView::Done,
        ) == (SessionView {
            agenda: answer_tasks(
                s.handles,
                ChatParticipant::Local,
                question,
                stripped(first_line(s.console)),
            ) + s.agenda.skip(1),
            console: seq![],
            ..s
        }),
        s.agenda[0] == TaskView::EndLine(ChatParticipant::Remote, question) ==> s.after(
            EventView::Done,
        ) == (SessionView {
            agenda: answer_tasks(
                s.handles,
                ChatParticipant::Remote,
                question,
                stripped(first_line(s.serial)),
            ) + s.agenda.skip(1),
            serial: seq![],
            ..s
        }),
{
    let who = s.agenda[0]->EndLine_0;
    law_answers(s.handles, who, stripped(first_line(s.buffer(who))));
}

/// An input is shown to a partner as the backend of that partner has it.
pub proof fn law_echo_is_that_of_the_backend(
    console: ConsoleBackend,
    serial: SerialBackend,
    input: Seq<char>,
)
    ensures
        echo_text(ChatParticipant::Local, input) == console.normalized(input),
        echo_text(ChatParticipant::Local, input) == input,
        echo_text(ChatParticipant::Remote, input) == serial.normalized(input),
{
    law_console_normalizes_nothing(console, input);
}

/// In a round of the chat, first the local partner is listened to, then the
/// remote one, and then a moment passes.
pub proof fn law_listening()
    ensures
        listen_tasks().len() == 3,
        action_for(listen_tasks()[0]) == ActionView::Poll(ChatParticipant::Local),
        action_for(listen_tasks()[1]) == ActionView::Poll(ChatParticipant::Remote),
        action_for(listen_tasks()[2]) == ActionView::Stall((1000u64 / 60) as u64),
{
}

/// What a partner says goes into the conversation as that partner's, and the
/// input of the other partner stays.
pub proof fn law_listening_hears_the_partner(s: SessionView, event: EventView)
    requires
        s.agenda.len() > 1,
        s.agenda[0] is Listen,
        event_fits(action_for(s.agenda[0]), event),
        event !is Failed,
        s.received(event) is Ok,
    ensures
        s.agenda[0] == TaskView::Listen(ChatParticipant::Local) ==> s.after(event)
            == (SessionView {
            agenda: s.agenda.skip(1),
            console: seq![],
            conversation: s.conversation.heard(
                ChatParticipant::Local,
                s.console + s.received(event)->Ok_0,
            ),
            ..s
        }),
        s.agenda[0] == TaskView::Listen(ChatParticipant::Remote) ==> s.after(event)
            == (SessionView {
            agenda: s.agenda.skip(1),
            serial: seq![],
            undecoded: s.after(event).undecoded,
            conversation: s.conversation.heard(
                ChatParticipant::Remote,
                s.serial + s.received(event)->Ok_0,
            ),
            ..s
        }),
{
}

/// The firmware is described by its revision, its vendor and its version, each
/// of them whole and in its place.
pub proof fn law_firmware_line(firmware: Firmware)
    ensures
        firmware_text(firmware) == "UEFI revision="@ + revision_display(firmware.revision)
            + ", vendor="@ + firmware.vendor@ + ", version="@ + decimal(firmware.version as nat)
            + "\n"@,
{
}

/// All that comes before the chat comes in this order: the device is selected;
/// both screens are cleared and old input is thrown away; both partners are
/// welcomed; the local partner is asked for a name while the remote one is told
/// to wait, and then the other way round.
pub proof fn law_opening(handles: usize, firmware: Firmware, i: usize)
    requires
        i < handles,
    ensures
        ({
            let local = ChatParticipant::Local;
            let remote = ChatParticipant::Remote;
            let wait = "Other user is selecting their name, please wait ...\n"@;
            let all = opening_tasks(handles as nat, firmware);
            let rest = all.skip(handles + 3);
            &&& all.len() == handles + 19
            &&& all[0] == TaskView::Write(
                local,
                "Available handles supporting the SERIAL_IO protocol:\n"@,
            )
            &&& all[1 + i] == TaskView::Describe(i)
            &&& all[1 + handles] == TaskView::Write(
                local,
                "Please select a handle (0, 1, 2, ...): "@,
            )
            &&& all[2 + handles] == TaskView::Read(local, Question::Handle, 0)
            &&& rest[0] == TaskView::ClearScreen(local)
            &&& rest[1] == TaskView::Drain(local)
            &&& rest[2] == TaskView::ClearScreen(remote)
            &&& rest[3] == TaskView::Drain(remote)
            &&& rest[4] == TaskView::Write(local, "Welcome to UEFI Serial Chat\n"@)
            &&& rest[5] == TaskView::Write(remote, "Welcome to UEFI Serial Chat\n"@)
            &&& rest[6] == TaskView::Write(local, firmware_text(firmware))
            &&& rest[7] == TaskView::Write(remote, firmware_text(firmware))
            &&& rest[8] == TaskView::Write(local, "Chat will begin shortly ...\n"@)
            &&& rest[9] == TaskView::Write(remote, "Chat will begin shortly ...\n"@)
            &&& rest[10] == TaskView::Write(remote, wait)
            &&& rest[11] == TaskView::Write(local, "Choose your username: "@)
            &&& rest[12] == TaskView::Read(local, Question::Username, 0)
            &&& rest[13] == TaskView::Write(local, wait)
            &&& rest[14] == TaskView::Write(remote, "Choose your username: "@)
            &&& rest[15] == TaskView::Read(remote, Question::Username, 0)
        }),
{
    law_every_device_is_listed(handles, i);
    let names = name_tasks(ChatParticipant::Local, ChatParticipant::Remote) + name_tasks(
        ChatParticipant::Remote,
        ChatParticipant::Local,
    );
    let welcome = welcome_tasks(firmware);
    law_broadcast_reaches_everyone(
        "Welcome to UEFI Serial Chat\n"@,
        both(),
        0,
    );
    law_broadcast_reaches_everyone(firmware_text(firmware), both(), 0);
    law_broadcast_reaches_everyone(
        "Chat will begin shortly ...\n"@,
        both(),
        0,
    );
    assert(names.len() == 6);
    assert(welcome.len() == 6);
    assert(opening_tasks(handles as nat, firmware).skip(handles + 3) =~= clear_tasks() + welcome
        + names);
}

} // verus!
