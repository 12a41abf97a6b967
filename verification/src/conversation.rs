//! What was said in the chat, what each partner is typing, and how both see it.

use crate::actions::visible_after;
use crate::echo::{is_control, is_control_code};
use crate::helpers::{
    chat_message, format_chat_message, has_linebreak, is_erase, is_linebreak, law_line_ends,
    law_message_line, strip_backspaces, stripped, ChatParticipant, BACKSPACE, DELETE,
};
use vstd::prelude::*;
use vstd::string::*;

verus! {

/// What is left of a text on a screen: the visible characters that were not
/// erased.
pub open spec fn on_screen(s: Seq<char>) -> Seq<char>
    decreases s.len(),
{
    if s.len() == 0 {
        seq![]
    } else {
        let front = on_screen(s.drop_last());
        if is_erase(s.last()) {
            if front.len() == 0 {
                front
            } else {
                front.drop_last()
            }
        } else if is_control(s.last()) {
            front
        } else {
            front.push(s.last())
        }
    }
}

/// As many characters are left on the screen as a prompt counts, and a text
/// without control codes is left as it is.
pub proof fn law_screen_shows_what_is_visible(s: Seq<char>)
    ensures
        on_screen(s).len() == visible_after(0, s),
        (forall|i: int| 0 <= i < s.len() ==> !is_control(#[trigger] s[i])) ==> on_screen(s) == s,
    decreases s.len(),
{
    if s.len() > 0 {
        law_screen_shows_what_is_visible(s.drop_last());
        if forall|i: int| 0 <= i < s.len() ==> !is_control(#[trigger] s[i]) {
            assert forall|i: int| 0 <= i < s.drop_last().len() implies !is_control(
                #[trigger] s.drop_last()[i],
            ) by {
                assert(s.drop_last()[i] == s[i]);
            }
            assert(!is_control(s[s.len() - 1]));
            assert(s.drop_last().push(s.last()) =~= s);
        }
    }
}

/// Works out what is left of a text on a screen.
fn screen_text(text: &str) -> (left: String)
    ensures
        left@ == on_screen(text@),
{
    let mut chars: Vec<char> = Vec::new();
    for c in it: text.chars()
        invariant
            it.seq() == text@,
            chars@ == on_screen(text@.take(it.index() as int)),
    {
        proof {
            assert(text@.take(it.index() + 1).drop_last() =~= text@.take(it.index() as int));
        }
        if c == BACKSPACE || c == DELETE {
            let ghost before = chars@;
            let _ = chars.pop();
            proof {
                if before.len() == 0 {
                    assert(chars@ =~= before);
                } else {
                    assert(chars@ =~= before.drop_last());
                }
            }
        } else if !is_control_code(c) {
            chars.push(c);
        }
    }
    proof {
        assert(text@.take(text@.len() as int) =~= text@);
    }
    let mut left: String = String::new();
    let mut i: usize = 0;
    while i < chars.len()
        invariant
            i <= chars.len(),
            left@ == chars@.take(i as int),
        decreases chars.len() - i,
    {
        left.push(chars[i]);
        i = i + 1;
        proof {
            assert(left@ =~= chars@.take(i as int));
        }
    }
    proof {
        assert(chars@.take(chars@.len() as int) =~= chars@);
    }
    left
}

/// A line that a partner is typing.
#[derive(Debug)]
struct Draft {
    text: String,
    after_cr: bool,
}

/// What a line that a partner is typing stands for.
pub struct DraftView {
    /// What was typed since the last line break.
    pub text: Seq<char>,
    /// Whether nothing was typed since a carriage return. A line feed is then
    /// part of the same line break.
    pub after_cr: bool,
}

impl DraftView {
    /// A line of which nothing was typed yet.
    pub open spec fn empty() -> DraftView {
        DraftView { text: seq![], after_cr: false }
    }

    /// Whether a character submits the line.
    pub open spec fn submits(self, c: char) -> bool {
        is_linebreak(c) && !(c == '\n' && self.after_cr)
    }

    /// The line after one more character.
    pub open spec fn typed(self, c: char) -> DraftView {
        if is_linebreak(c) {
            DraftView { text: if self.submits(c) { seq![] } else { self.text }, after_cr: c == '\r' }
        } else {
            DraftView { text: self.text.push(c), after_cr: false }
        }
    }
}

impl View for Draft {
    type V = DraftView;

    closed spec fn view(&self) -> DraftView {
        DraftView { text: self.text@, after_cr: self.after_cr }
    }
}

impl Draft {
    fn new() -> (draft: Draft)
        ensures
            draft@ == DraftView::empty(),
    {
        Draft { text: String::new(), after_cr: false }
    }

    /// Takes one more character, and returns the line if that submits it.
    fn push(&mut self, c: char) -> (line: Option<String>)
        ensures
            final(self)@ == old(self)@.typed(c),
            line is Some <==> old(self)@.submits(c),
            line matches Some(text) ==> text@ == stripped(old(self)@.text),
    {
        if c == '\r' || c == '\n' {
            let submits = !(c == '\n' && self.after_cr);
            self.after_cr = c == '\r';
            if submits {
                let line = strip_backspaces(self.text.clone());
                self.text = String::new();
                Some(line)
            } else {
                None
            }
        } else {
            self.after_cr = false;
            self.text.push(c);
            None
        }
    }
}

/// A message of a partner.
#[derive(Debug)]
struct Message {
    who: ChatParticipant,
    text: String,
}

impl View for Message {
    type V = (ChatParticipant, Seq<char>);

    closed spec fn view(&self) -> (ChatParticipant, Seq<char>) {
        (self.who, self.text@)
    }
}

/// What was said, and what both partners are typing.
#[derive(Debug)]
pub struct Conversation {
    messages: Vec<Message>,
    local: Draft,
    remote: Draft,
}

/// What [`Conversation`] stands for.
pub struct ConversationView {
    /// The messages and who submitted each, in order.
    pub messages: Seq<(ChatParticipant, Seq<char>)>,
    /// What the local partner is typing.
    pub local: DraftView,
    /// What the remote partner is typing.
    pub remote: DraftView,
}

/// The lines in which messages are shown, one below the other.
pub open spec fn message_lines(messages: Seq<(ChatParticipant, Seq<char>)>) -> Seq<char>
    decreases messages.len(),
{
    if messages.len() == 0 {
        seq![]
    } else {
        message_lines(messages.drop_last()) + (chat_message(messages.last().0, messages.last().1)
            + "\n"@)
    }
}

impl ConversationView {
    /// A conversation that has not begun.
    pub open spec fn empty() -> ConversationView {
        ConversationView {
            messages: seq![],
            local: DraftView::empty(),
            remote: DraftView::empty(),
        }
    }

    /// What a partner is typing.
    pub open spec fn draft(self, who: ChatParticipant) -> DraftView {
        match who {
            ChatParticipant::Local => self.local,
            ChatParticipant::Remote => self.remote,
        }
    }

    /// The conversation in which a partner is typing something else.
    pub open spec fn with_draft(self, who: ChatParticipant, draft: DraftView) -> ConversationView {
        match who {
            ChatParticipant::Local => ConversationView { local: draft, ..self },
            ChatParticipant::Remote => ConversationView { remote: draft, ..self },
        }
    }

    /// The conversation after a partner has typed a character. At the end of a
    /// line, the line becomes a message.
    pub open spec fn typed(self, who: ChatParticipant, c: char) -> ConversationView {
        let draft = self.draft(who);
        let next = self.with_draft(who, draft.typed(c));
        if draft.submits(c) {
            ConversationView { messages: self.messages.push((who, stripped(draft.text))), ..next }
        } else {
            next
        }
    }

    /// The conversation after a partner has typed a text.
    pub open spec fn heard(self, who: ChatParticipant, text: Seq<char>) -> ConversationView
        decreases text.len(),
    {
        if text.len() == 0 {
            self
        } else {
            self.heard(who, text.drop_last()).typed(who, text.last())
        }
    }

    /// What a partner is typing, as both see it.
    pub open spec fn draft_line(self, who: ChatParticipant) -> Seq<char> {
        chat_message(who, on_screen(self.draft(who).text))
    }

    /// What both partners see: all messages, and below them what each of the two
    /// is typing.
    pub open spec fn screen(self) -> Seq<char> {
        message_lines(self.messages) + (self.draft_line(ChatParticipant::Local) + ("\n"@
            + self.draft_line(ChatParticipant::Remote)))
    }
}

impl View for Conversation {
    type V = ConversationView;

    closed spec fn view(&self) -> ConversationView {
        ConversationView {
            messages: self.messages@.map_values(|message: Message| message@),
            local: self.local@,
            remote: self.remote@,
        }
    }
}

impl Conversation {
    /// A conversation that has not begun.
    pub fn new() -> (conversation: Conversation)
        ensures
            conversation@ == ConversationView::empty(),
    {
        let conversation = Conversation {
            messages: Vec::new(),
            local: Draft::new(),
            remote: Draft::new(),
        };
        proof {
            assert(conversation@.messages =~= seq![]);
        }
        conversation
    }

    /// Takes a character that a partner has typed.
    fn push(&mut self, who: ChatParticipant, c: char)
        ensures
            final(self)@ == old(self)@.typed(who, c),
    {
        let line = match who {
            ChatParticipant::Local => self.local.push(c),
            ChatParticipant::Remote => self.remote.push(c),
        };
        if let Some(text) = line {
            self.messages.push(Message { who, text });
            proof {
                assert(self@.messages =~= old(self)@.messages.push((who, text@)));
            }
        }
    }

    /// Takes a text that a partner has typed. Each line that it completes becomes
    /// a message.
    pub fn hear(&mut self, who: ChatParticipant, text: &str)
        ensures
            final(self)@ == old(self)@.heard(who, text@),
    {
        for c in it: text.chars()
            invariant
                it.seq() == text@,
                self@ == old(self)@.heard(who, text@.take(it.index() as int)),
        {
            proof {
                assert(text@.take(it.index() + 1).drop_last() =~= text@.take(it.index() as int));
            }
            self.push(who, c);
        }
        proof {
            assert(text@.take(text@.len() as int) =~= text@);
        }
    }

    /// Renders what both partners see.
    pub fn screen(&self) -> (screen: String)
        ensures
            screen@ == self@.screen(),
    {
        let ghost messages = self@.messages;
        let mut screen: String = String::new();
        let mut i: usize = 0;
        while i < self.messages.len()
            invariant
                i <= self.messages.len(),
                messages == self@.messages,
                messages.len() == self.messages@.len(),
                screen@ == message_lines(messages.take(i as int)),
            decreases self.messages.len() - i,
        {
            let message = &self.messages[i];
            let line = format_chat_message(message.who, message.text.as_str());
            proof {
                assert(messages[i as int] == message@);
                assert(messages.take(i + 1).drop_last() =~= messages.take(i as int));
                assert(messages.take(i + 1).last() == message@);
            }
            let ghost before = screen@;
            screen.append(line.as_str());
            screen.append("\n");
            i = i + 1;
            proof {
                assert(screen@ =~= before + (line@ + "\n"@));
            }
        }
        proof {
            assert(messages.take(messages.len() as int) =~= messages);
        }
        let local = format_chat_message(
            ChatParticipant::Local,
            screen_text(self.local.text.as_str()).as_str(),
        );
        let remote = format_chat_message(
            ChatParticipant::Remote,
            screen_text(self.remote.text.as_str()).as_str(),
        );
        screen.append(local.as_str());
        screen.append("\n");
        screen.append(remote.as_str());
        proof {
            assert(screen@ =~= self@.screen());
        }
        screen
    }
}

/// It does not matter in which pieces a text arrives.
pub proof fn law_hearing_ignores_cuts(
    conversation: ConversationView,
    who: ChatParticipant,
    a: Seq<char>,
    b: Seq<char>,
)
    ensures
        conversation.heard(who, a + b) == conversation.heard(who, a).heard(who, b),
    decreases b.len(),
{
    if b.len() == 0 {
        assert(a + b =~= a);
    } else {
        assert((a + b).drop_last() =~= a + b.drop_last());
        law_hearing_ignores_cuts(conversation, who, a, b.drop_last());
    }
}

/// What is being typed is no message yet, and the other partner's line does not
/// change with it.
pub proof fn law_typing_is_no_message(
    conversation: ConversationView,
    who: ChatParticipant,
    text: Seq<char>,
)
    requires
        !has_linebreak(text),
        text.len() > 0,
    ensures
        conversation.heard(who, text) == conversation.with_draft(
            who,
            DraftView { text: conversation.draft(who).text + text, after_cr: false },
        ),
    decreases text.len(),
{
    let front = text.drop_last();
    let before = conversation.draft(who).text;
    assert(!is_linebreak(text[text.len() - 1]));
    assert((before + front).push(text.last()) =~= before + text);
    if front.len() == 0 {
        assert(before + front =~= before);
        assert(conversation.heard(who, front) == conversation);
    } else {
        assert forall|i: int| 0 <= i < front.len() implies !is_linebreak(#[trigger] front[i]) by {
            assert(front[i] == text[i]);
        }
        law_typing_is_no_message(conversation, who, front);
    }
}

/// A line that a partner types and ends becomes the latest message, and the
/// partner starts another line. A line feed that belongs to the carriage return
/// before it ends no line.
pub proof fn law_line_becomes_message(
    conversation: ConversationView,
    who: ChatParticipant,
    line: Seq<char>,
    end: char,
)
    requires
        !has_linebreak(line),
        is_linebreak(end),
        line.len() == 0 ==> conversation.draft(who).submits(end),
    ensures
        conversation.heard(who, line.push(end)) == (ConversationView {
            messages: conversation.messages.push(
                (who, stripped(conversation.draft(who).text + line)),
            ),
            ..conversation.with_draft(who, DraftView { text: seq![], after_cr: end == '\r' })
        }),
{
    assert(line.push(end).drop_last() =~= line);
    if line.len() == 0 {
        assert(conversation.draft(who).text + line =~= conversation.draft(who).text);
        assert(conversation.heard(who, line) == conversation);
    } else {
        law_typing_is_no_message(conversation, who, line);
    }
}

/// A carriage return and a line feed that follows it, at once or later, end one
/// line and not two.
pub proof fn law_line_feed_belongs_to_carriage_return(
    conversation: ConversationView,
    who: ChatParticipant,
)
    ensures
        conversation.heard(who, seq!['\r', '\n']) == (ConversationView {
            messages: conversation.messages.push((who, stripped(conversation.draft(who).text))),
            ..conversation.with_draft(who, DraftView::empty())
        }),
{
    reveal_with_fuel(ConversationView::heard, 3);
    assert(seq!['\r', '\n'].drop_last() =~= seq!['\r']);
    assert(seq!['\r'].drop_last() =~= Seq::<char>::empty());
}

/// Messages stay: whatever a partner types, all earlier messages are there still
/// and in their order, and the later ones are that partner's.
pub proof fn law_messages_stay(
    conversation: ConversationView,
    who: ChatParticipant,
    text: Seq<char>,
)
    ensures
        conversation.messages.is_prefix_of(conversation.heard(who, text).messages),
        forall|i: int|
            conversation.messages.len() <= i < conversation.heard(who, text).messages.len()
                ==> (#[trigger] conversation.heard(who, text).messages[i]).0 == who,
    decreases text.len(),
{
    if text.len() > 0 {
        law_messages_stay(conversation, who, text.drop_last());
    }
}

proof fn lemma_message_lines_concat(
    a: Seq<(ChatParticipant, Seq<char>)>,
    b: Seq<(ChatParticipant, Seq<char>)>,
)
    ensures
        message_lines(a + b) == message_lines(a) + message_lines(b),
    decreases b.len(),
{
    if b.len() == 0 {
        assert(a + b =~= a);
        assert(message_lines(a) + message_lines(b) =~= message_lines(a));
    } else {
        assert((a + b).drop_last() =~= a + b.drop_last());
        lemma_message_lines_concat(a, b.drop_last());
        assert(message_lines(a + b) =~= message_lines(a) + message_lines(b));
    }
}

/// Both partners see every message, in order: after the lines of the messages
/// before it comes the line of a message, then those of the messages after it,
/// and then what the two are typing.
pub proof fn law_screen_shows_every_message(conversation: ConversationView, i: int)
    requires
        0 <= i < conversation.messages.len(),
    ensures
        ({
            let messages = conversation.messages;
            conversation.screen() == message_lines(messages.take(i)) + (chat_message(
                messages[i].0,
                messages[i].1,
            ) + "\n"@) + message_lines(messages.skip(i + 1)) + conversation.draft_line(
                ChatParticipant::Local,
            ) + "\n"@ + conversation.draft_line(ChatParticipant::Remote)
        }),
{
    let messages = conversation.messages;
    assert(messages =~= messages.take(i + 1) + messages.skip(i + 1));
    lemma_message_lines_concat(messages.take(i + 1), messages.skip(i + 1));
    assert(messages.take(i + 1).drop_last() =~= messages.take(i));
    assert(conversation.screen() =~= message_lines(messages.take(i)) + (chat_message(
        messages[i].0,
        messages[i].1,
    ) + "\n"@) + message_lines(messages.skip(i + 1)) + conversation.draft_line(
        ChatParticipant::Local,
    ) + "\n"@ + conversation.draft_line(ChatParticipant::Remote));
}

/// A visible character is added to what is left on the screen, an erase
/// character takes away the one before it, and where nothing is left, neither an
/// erase character nor any other control code changes anything.
pub proof fn law_screen_is_edited(s: Seq<char>, visible: char, erase: char, control: char)
    requires
        !is_control(visible),
        erase == '\x08' || erase == '\x7f',
        is_control(control),
        control != '\x08' && control != '\x7f',
    ensures
        on_screen(Seq::<char>::empty()) == Seq::<char>::empty(),
        on_screen(s.push(visible)) == on_screen(s).push(visible),
        on_screen(s.push(visible).push(erase)) == on_screen(s),
        on_screen(s.push(control)) == on_screen(s),
        on_screen(s).len() > 0 ==> on_screen(s.push(erase)) == on_screen(s).drop_last(),
        on_screen(s).len() == 0 ==> on_screen(s.push(erase)) == Seq::<char>::empty(),
{
    assert(s.push(visible).drop_last() =~= s);
    assert(s.push(erase).drop_last() =~= s);
    assert(s.push(control).drop_last() =~= s);
    assert(s.push(visible).push(erase).drop_last() =~= s.push(visible));
    assert(!is_erase(visible));
    assert(on_screen(s.push(visible)) == on_screen(s).push(visible));
    assert(on_screen(s).push(visible).drop_last() =~= on_screen(s));
    if on_screen(s).len() == 0 {
        assert(on_screen(s) =~= Seq::<char>::empty());
    }
}

/// Whatever one partner types, the line that the other one is typing does not
/// change.
pub proof fn law_other_draft_stays(conversation: ConversationView, text: Seq<char>)
    ensures
        conversation.heard(ChatParticipant::Local, text).remote == conversation.remote,
        conversation.heard(ChatParticipant::Remote, text).local == conversation.local,
        conversation.draft(ChatParticipant::Local) == conversation.local,
        conversation.draft(ChatParticipant::Remote) == conversation.remote,
    decreases text.len(),
{
    if text.len() > 0 {
        law_other_draft_stays(conversation, text.drop_last());
    }
}

/// What the partners type without ending a line is added to the line of the one
/// who types it, and nothing else changes.
pub proof fn law_typing_extends_own_draft(conversation: ConversationView, text: Seq<char>)
    requires
        !text.contains('\r'),
        !text.contains('\n'),
    ensures
        conversation.heard(ChatParticipant::Local, text).messages == conversation.messages,
        conversation.heard(ChatParticipant::Local, text).local.text == conversation.local.text
            + text,
        conversation.heard(ChatParticipant::Remote, text).messages == conversation.messages,
        conversation.heard(ChatParticipant::Remote, text).remote.text == conversation.remote.text
            + text,
    decreases text.len(),
{
    law_line_ends(text, text, seq![]);
    if text.len() == 0 {
        assert(conversation.local.text + text =~= conversation.local.text);
        assert(conversation.remote.text + text =~= conversation.remote.text);
    } else {
        law_typing_is_no_message(conversation, ChatParticipant::Local, text);
        law_typing_is_no_message(conversation, ChatParticipant::Remote, text);
    }
}

/// A line that a partner ends is submitted whole, with all that was typed of it
/// before, however it arrived; the next line starts empty.
pub proof fn law_ended_line_is_submitted(
    conversation: ConversationView,
    line: Seq<char>,
    end: char,
)
    requires
        !line.contains('\r'),
        !line.contains('\n'),
        line.len() > 0,
        end == '\r' || end == '\n',
    ensures
        conversation.heard(ChatParticipant::Local, line.push(end)).messages
            == conversation.messages.push(
            (ChatParticipant::Local, stripped(conversation.local.text + line)),
        ),
        conversation.heard(ChatParticipant::Local, line.push(end)).local.text
            == Seq::<char>::empty(),
        conversation.heard(ChatParticipant::Remote, line.push(end)).messages
            == conversation.messages.push(
            (ChatParticipant::Remote, stripped(conversation.remote.text + line)),
        ),
        conversation.heard(ChatParticipant::Remote, line.push(end)).remote.text
            == Seq::<char>::empty(),
{
    law_line_ends(line, line, seq![]);
    law_line_becomes_message(conversation, ChatParticipant::Local, line, end);
    law_line_becomes_message(conversation, ChatParticipant::Remote, line, end);
}

/// A line break alone submits what was typed, even nothing. Only a line feed
/// right after a carriage return does not.
pub proof fn law_bare_line_break(
    conversation: ConversationView,
    who: ChatParticipant,
    c: char,
)
    requires
        c != '\r' && c != '\n',
    ensures
        ({
            let message = (who, stripped(conversation.draft(who).text));
            let returned = conversation.heard(who, seq!['\r']);
            let fed = conversation.heard(who, seq!['\n']);
            &&& returned.messages == conversation.messages.push(message)
            &&& returned.draft(who).text == Seq::<char>::empty()
            &&& returned.draft(who).after_cr
            &&& conversation.draft(who).after_cr ==> fed.messages == conversation.messages
            &&& !conversation.draft(who).after_cr ==> fed.messages == conversation.messages.push(
                message,
            ) && fed.draft(who).text == Seq::<char>::empty()
            &&& !fed.draft(who).after_cr
            &&& !conversation.heard(who, seq![c]).draft(who).after_cr
        }),
{
    reveal_with_fuel(ConversationView::heard, 2);
    assert(seq!['\r'].drop_last() =~= Seq::<char>::empty());
    assert(seq!['\n'].drop_last() =~= Seq::<char>::empty());
    assert(seq![c].drop_last() =~= Seq::<char>::empty());
}

/// Below the messages both partners see, first, what the local one is typing
/// and, in the last line, what the remote one is typing.
pub proof fn law_screen_shows_drafts(conversation: ConversationView)
    ensures
        conversation.screen() == message_lines(conversation.messages) + "[ LOCAL]: "@ + on_screen(
            conversation.local.text,
        ) + "\n[REMOTE]: "@ + on_screen(conversation.remote.text),
        message_lines(Seq::<(ChatParticipant, Seq<char>)>::empty()) == Seq::<char>::empty(),
{
    law_message_line(on_screen(conversation.local.text));
    law_message_line(on_screen(conversation.remote.text));
    reveal_strlit("\n");
    reveal_strlit("[REMOTE]: ");
    reveal_strlit("\n[REMOTE]: ");
    assert("\n"@ + "[REMOTE]: "@ =~= "\n[REMOTE]: "@);
    assert(conversation.screen() =~= message_lines(conversation.messages) + "[ LOCAL]: "@
        + on_screen(conversation.local.text) + "\n[REMOTE]: "@ + on_screen(
        conversation.remote.text,
    ));
}

/// Each message has a line of its own, below those of the messages before it.
pub proof fn law_message_lines(messages: Seq<(ChatParticipant, Seq<char>)>, msg: Seq<char>)
    ensures
        message_lines(messages.push((ChatParticipant::Local, msg))) == message_lines(messages)
            + "[ LOCAL]: "@ + msg + "\n"@,
        message_lines(messages.push((ChatParticipant::Remote, msg))) == message_lines(messages)
            + "[REMOTE]: "@ + msg + "\n"@,
{
    law_message_line(msg);
    let local = messages.push((ChatParticipant::Local, msg));
    let remote = messages.push((ChatParticipant::Remote, msg));
    assert(local.drop_last() =~= messages);
    assert(remote.drop_last() =~= messages);
    assert(message_lines(local) =~= message_lines(messages) + "[ LOCAL]: "@ + msg + "\n"@);
    assert(message_lines(remote) =~= message_lines(messages) + "[REMOTE]: "@ + msg + "\n"@);
}

} // verus!
