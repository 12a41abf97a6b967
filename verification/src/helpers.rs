//! Text that the chat shows and reads: message lines, line breaks and the
//! characters with which a user takes back what was typed.

use vstd::prelude::*;
use vstd::string::*;
use vstd::utf8::*;

verus! {

/// ASCII delete.
pub const DELETE: char = '\x7f';

/// ASCII backspace.
pub const BACKSPACE: char = '\x08';

/// `String::push` appends the character to the end of the string.
pub assume_specification[ String::push ](string: &mut String, ch: char)
    ensures
        final(string)@ == old(string)@.push(ch),
;

/// Whether a character takes back the one before it.
pub open spec fn is_erase(c: char) -> bool {
    c == BACKSPACE || c == DELETE
}

/// How many characters of the text take back another one.
pub open spec fn erase_count(s: Seq<char>) -> nat
    decreases s.len(),
{
    if s.len() == 0 {
        0
    } else {
        erase_count(s.drop_last()) + if is_erase(s.last()) { 1nat } else { 0nat }
    }
}

/// The text without those erase characters that `allowed` others precede.
pub open spec fn limit_erases(s: Seq<char>, allowed: nat) -> Seq<char>
    decreases s.len(),
{
    if s.len() == 0 {
        seq![]
    } else {
        let kept = limit_erases(s.drop_last(), allowed);
        if is_erase(s.last()) && erase_count(s.drop_last()) >= allowed {
            kept
        } else {
            kept.push(s.last())
        }
    }
}

/// Limits the backspaces (ASCII BS and DEL) in a string to the first
/// `allowed_bs` ones.
///
/// This helps to prevent removing characters from the screen that were not part
/// of the user input.
pub fn string_limit_backspaces(string: String, allowed_bs: usize) -> (limited: String)
    ensures
        limited@ == limit_erases(string@, allowed_bs as nat),
{
    let mut limited: String = String::new();
    let mut left: usize = allowed_bs;
    let text = string.as_str();
    for c in it: text.chars()
        invariant
            it.seq() == string@,
            limited@ == limit_erases(string@.take(it.index() as int), allowed_bs as nat),
            erase_count(string@.take(it.index() as int)) <= allowed_bs ==> left == allowed_bs
                - erase_count(string@.take(it.index() as int)),
            erase_count(string@.take(it.index() as int)) > allowed_bs ==> left == 0,
    {
        proof {
            assert(string@.take(it.index() + 1).drop_last() =~= string@.take(it.index() as int));
        }
        if c == BACKSPACE || c == DELETE {
            if left > 0 {
                left = left - 1;
                limited.push(c);
            }
        } else {
            limited.push(c);
        }
    }
    proof {
        assert(string@.take(string@.len() as int) =~= string@);
    }
    limited
}

/// What a terminal is sent to blank the character left of the cursor.
pub open spec fn erase_sequence() -> Seq<char> {
    seq![BACKSPACE, ' ', BACKSPACE]
}

/// The text without the occurrences of a pattern, found from left to right and
/// without overlap.
pub open spec fn remove_all(s: Seq<char>, pattern: Seq<char>) -> Seq<char>
    decreases s.len(),
{
    if pattern.len() == 0 || s.len() == 0 {
        s
    } else if pattern.is_prefix_of(s) {
        remove_all(s.skip(pattern.len() as int), pattern)
    } else {
        seq![s[0]] + remove_all(s.drop_first(), pattern)
    }
}

/// The text without its erase characters.
pub open spec fn without_erases(s: Seq<char>) -> Seq<char> {
    s.filter(|c: char| !is_erase(c))
}

/// The text without erase sequences and, after that, without erase characters.
pub open spec fn stripped(s: Seq<char>) -> Seq<char> {
    without_erases(remove_all(s, erase_sequence()))
}

pub proof fn lemma_without_erases_front(c: char, s: Seq<char>)
    ensures
        without_erases(seq![c] + s) == (if is_erase(c) {
            without_erases(s)
        } else {
            seq![c] + without_erases(s)
        }),
{
    let keep = |c: char| !is_erase(c);
    Seq::filter_distributes_over_add(seq![c], s, keep);
    assert(seq![c].drop_last() =~= Seq::<char>::empty());
    reveal_with_fuel(Seq::filter, 2);
    assert(seq![c].filter(keep) =~= if is_erase(c) { Seq::<char>::empty() } else { seq![c] });
}

pub proof fn lemma_erase_sequence_prefix(s: Seq<char>)
    ensures
        erase_sequence().is_prefix_of(s) <==> s.len() >= 3 && s[0] == BACKSPACE && s[1] == ' '
            && s[2] == BACKSPACE,
{
    let e = erase_sequence();
    if e.is_prefix_of(s) {
        assert(s[0] == e[0] && s[1] == e[1] && s[2] == e[2]);
    }
    if s.len() >= 3 && s[0] == BACKSPACE && s[1] == ' ' && s[2] == BACKSPACE {
        assert(e =~= s.subrange(0, 3));
    }
}

/// One step of stripping a text from its front.
pub proof fn lemma_stripped_step(s: Seq<char>)
    requires
        s.len() > 0,
    ensures
        erase_sequence().is_prefix_of(s) ==> stripped(s) == stripped(s.skip(3)),
        !erase_sequence().is_prefix_of(s) && is_erase(s[0]) ==> stripped(s) == stripped(
            s.drop_first(),
        ),
        !is_erase(s[0]) ==> stripped(s) == seq![s[0]] + stripped(s.drop_first()),
{
    lemma_erase_sequence_prefix(s);
    lemma_without_erases_front(s[0], remove_all(s.drop_first(), erase_sequence()));
}

/// The characters of a string, one by one.
fn chars_of(string: &str) -> (chars: Vec<char>)
    ensures
        chars@ == string@,
{
    let mut chars: Vec<char> = Vec::new();
    for c in it: string.chars()
        invariant
            it.seq() == string@,
            chars@ == string@.take(it.index() as int),
    {
        chars.push(c);
    }
    chars
}

/// Strips all backspaces from a string and returns the effective string.
pub fn strip_backspaces(string: String) -> (text: String)
    ensures
        text@ == stripped(string@),
{
    let chars = chars_of(string.as_str());
    let mut text: String = String::new();
    let mut i: usize = 0;
    proof {
        assert(string@.skip(0) =~= string@);
    }
    while i < chars.len()
        invariant
            i <= chars.len(),
            chars@ == string@,
            stripped(string@) == text@ + stripped(string@.skip(i as int)),
        decreases chars.len() - i,
    {
        let c = chars[i];
        let ghost rest = string@.skip(i as int);
        proof {
            lemma_stripped_step(rest);
            lemma_erase_sequence_prefix(rest);
            assert(rest.drop_first() =~= string@.skip(i + 1));
        }
        if chars.len() - i > 2 && c == BACKSPACE && chars[i + 1] == ' ' && chars[i + 2]
            == BACKSPACE {
            proof {
                assert(rest.skip(3) =~= string@.skip(i + 3));
            }
            i = i + 3;
        } else {
            if c != BACKSPACE && c != DELETE {
                proof {
                    let tail = stripped(string@.skip(i + 1));
                    assert(text@ + (seq![c] + tail) =~= text@.push(c) + tail);
                }
                text.push(c);
            }
            i = i + 1;
        }
    }
    proof {
        assert(string@.skip(i as int) =~= Seq::<char>::empty());
        assert(stripped(Seq::<char>::empty()) =~= Seq::<char>::empty());
    }
    text
}

/// Whether a character ends a line.
pub open spec fn is_linebreak(c: char) -> bool {
    c == '\r' || c == '\n'
}

/// The number of characters before the first line break, or of all characters
/// where there is none.
pub open spec fn first_line_len(s: Seq<char>) -> nat
    decreases s.len(),
{
    if s.len() == 0 || is_linebreak(s[0]) {
        0
    } else {
        1 + first_line_len(s.drop_first())
    }
}

/// The text before the first line break.
pub open spec fn first_line(s: Seq<char>) -> Seq<char> {
    s.take(first_line_len(s) as int)
}

/// Whether the text has a line break.
pub open spec fn has_linebreak(s: Seq<char>) -> bool {
    exists|i: int| 0 <= i < s.len() && is_linebreak(#[trigger] s[i])
}

/// The first line is the longest beginning of a text that has no line break.
pub proof fn law_first_line(s: Seq<char>)
    ensures
        first_line_len(s) <= s.len(),
        !has_linebreak(first_line(s)),
        has_linebreak(s) <==> first_line_len(s) < s.len(),
        first_line_len(s) < s.len() ==> is_linebreak(s[first_line_len(s) as int]),
    decreases s.len(),
{
    if s.len() > 0 && !is_linebreak(s[0]) {
        let rest = s.drop_first();
        law_first_line(rest);
        assert forall|i: int| 0 <= i < first_line(s).len() implies !is_linebreak(
            #[trigger] first_line(s)[i],
        ) by {
            if i > 0 {
                assert(first_line(rest)[i - 1] == s[i]);
            }
        }
        if has_linebreak(s) {
            let i = choose|i: int| 0 <= i < s.len() && is_linebreak(#[trigger] s[i]);
            assert(rest[i - 1] == s[i]);
        }
    }
}

/// The first line of a text is its beginning up to any line break that none
/// precedes.
proof fn lemma_first_line_len(s: Seq<char>, n: int)
    requires
        0 <= n <= s.len(),
        forall|i: int| 0 <= i < n ==> !is_linebreak(#[trigger] s[i]),
        n < s.len() ==> is_linebreak(s[n]),
    ensures
        first_line_len(s) == n,
    decreases n,
{
    if n > 0 {
        lemma_first_line_len(s.drop_first(), n - 1);
    }
}

/// Finds the first linebreak and returns its position in the string, in bytes.
///
/// This works for Rust strings as well as the input from the UEFI console or a
/// serial terminal.
pub fn find_first_linebreak(string: &str) -> (position: Option<usize>)
    ensures
        position is Some <==> has_linebreak(string@),
        position matches Some(n) ==> n == encode_utf8(first_line(string@)).len(),
{
    let n: usize = string.unicode_len();
    let mut i: usize = 0;
    for c in it: string.chars()
        invariant
            it.seq() == string@,
            n == string@.len(),
            i == it.index(),
            forall|k: int| 0 <= k < i ==> !is_linebreak(#[trigger] string@[k]),
    {
        if c == '\r' || c == '\n' {
            proof {
                lemma_first_line_len(string@, i as int);
                law_first_line(string@);
            }
            return Some(string.substring_char(0, i).as_bytes().len());
        }
        i = i + 1;
    }
    None
}

/// One of the two people in the chat.
#[derive(Copy, Clone, Debug, PartialEq, Eq, Structural)]
pub enum ChatParticipant {
    /// The user of this machine, at the UEFI console.
    Local,
    /// Whoever sits at the other end of the serial line.
    Remote,
}

/// The name under which a participant's messages are shown, six characters
/// wide.
pub open spec fn participant_label(participant: ChatParticipant) -> Seq<char> {
    match participant {
        ChatParticipant::Local => " LOCAL"@,
        ChatParticipant::Remote => "REMOTE"@,
    }
}

/// A chat message as it stands on the screen.
pub open spec fn chat_message(participant: ChatParticipant, msg: Seq<char>) -> Seq<char> {
    "["@ + participant_label(participant) + "]: "@ + msg
}

/// Formats a chat message for the screen.
///
/// It assumes that each message is a single line.
pub fn format_chat_message(participant: ChatParticipant, msg: &str) -> (line: String)
    ensures
        line@ == chat_message(participant, msg@),
{
    let mut line: String = "[".to_owned();
    match participant {
        ChatParticipant::Local => line.append(" LOCAL"),
        ChatParticipant::Remote => line.append("REMOTE"),
    }
    line.append("]: ");
    line.append(msg);
    line
}

/// The names of the participants are equally wide, so that their messages line
/// up.
pub proof fn law_labels_line_up(a: ChatParticipant, b: ChatParticipant)
    ensures
        participant_label(a).len() == 6,
        a != b ==> participant_label(a) != participant_label(b),
{
    reveal_strlit(" LOCAL");
    reveal_strlit("REMOTE");
    assert(a != b ==> participant_label(a)[0] != participant_label(b)[0]);
}

/// Backspace and delete erase, and no other character does.
pub proof fn law_erase_characters(s: Seq<char>, c: char)
    ensures
        is_erase(c) <==> c == '\x08' || c == '\x7f',
        erase_count(s) == s.filter(|c: char| c == '\x08' || c == '\x7f').len(),
        without_erases(s) == s.filter(|c: char| c != '\x08' && c != '\x7f'),
    decreases s.len(),
{
    reveal(Seq::filter);
    if s.len() > 0 {
        law_erase_characters(s.drop_last(), c);
    }
}

/// Limiting a text is limiting its parts one after the other: the second part
/// has what the first one left of the allowance. Without an allowance, no erase
/// character is left.
pub proof fn law_limit_in_parts(a: Seq<char>, b: Seq<char>, allowed: nat)
    ensures
        limit_erases(a + b, allowed) == limit_erases(a, allowed) + limit_erases(
            b,
            (if erase_count(a) <= allowed {
                allowed - erase_count(a)
            } else {
                0
            }) as nat,
        ),
        limit_erases(a, 0) == a.filter(|c: char| c != '\x08' && c != '\x7f'),
    decreases b.len(),
{
    lemma_limit_to_none(a);
    let left = (if erase_count(a) <= allowed {
        allowed - erase_count(a)
    } else {
        0
    }) as nat;
    if b.len() == 0 {
        assert(a + b =~= a);
        assert(limit_erases(a, allowed) + limit_erases(b, left) =~= limit_erases(a, allowed));
    } else {
        assert((a + b).drop_last() =~= a + b.drop_last());
        law_limit_in_parts(a, b.drop_last(), allowed);
        lemma_erase_count_parts(a, b.drop_last());
        assert(limit_erases(a + b, allowed) =~= limit_erases(a, allowed) + limit_erases(b, left));
    }
}

proof fn lemma_erase_count_parts(a: Seq<char>, b: Seq<char>)
    ensures
        erase_count(a + b) == erase_count(a) + erase_count(b),
    decreases b.len(),
{
    if b.len() == 0 {
        assert(a + b =~= a);
    } else {
        assert((a + b).drop_last() =~= a + b.drop_last());
        lemma_erase_count_parts(a, b.drop_last());
    }
}

proof fn lemma_limit_to_none(s: Seq<char>)
    ensures
        limit_erases(s, 0) == s.filter(|c: char| c != '\x08' && c != '\x7f'),
    decreases s.len(),
{
    reveal(Seq::filter);
    if s.len() > 0 {
        lemma_limit_to_none(s.drop_last());
    }
}

/// Stripping goes from left to right: a character that erases nothing is kept,
/// a backspace, a blank and a backspace go together, and any other backspace or
/// delete goes alone.
pub proof fn law_strip_step(c: char, rest: Seq<char>)
    ensures
        stripped(Seq::<char>::empty()) == Seq::<char>::empty(),
        c != '\x08' && c != '\x7f' ==> stripped(seq![c] + rest) == seq![c] + stripped(rest),
        stripped(seq!['\x08', ' ', '\x08'] + rest) == stripped(rest),
        c == '\x7f' ==> stripped(seq![c] + rest) == stripped(rest),
        c == '\x08' && !(rest.len() >= 2 && rest[0] == ' ' && rest[1] == '\x08') ==> stripped(
            seq![c] + rest,
        ) == stripped(rest),
{
    let one = seq![c] + rest;
    let three = seq!['\x08', ' ', '\x08'] + rest;
    assert(stripped(Seq::<char>::empty()) =~= Seq::<char>::empty());
    lemma_erase_sequence_prefix(one);
    lemma_stripped_step(one);
    assert(one.drop_first() =~= rest);
    lemma_erase_sequence_prefix(three);
    lemma_stripped_step(three);
    assert(three.skip(3) =~= rest);
}

/// A line ends before the first carriage return or line feed, and nowhere else:
/// what stands before one of the two, without any of them in it, is the first
/// line.
pub proof fn law_line_ends(s: Seq<char>, line: Seq<char>, rest: Seq<char>)
    requires
        !line.contains('\r'),
        !line.contains('\n'),
        rest.len() == 0 || rest[0] == '\r' || rest[0] == '\n',
    ensures
        has_linebreak(s) <==> s.contains('\r') || s.contains('\n'),
        first_line(line + rest) == line,
{
    let whole = line + rest;
    assert forall|i: int| 0 <= i < line.len() implies !is_linebreak(#[trigger] whole[i]) by {
        assert(line.contains(line[i]));
    }
    lemma_first_line_len(whole, line.len() as int);
    assert(whole.take(line.len() as int) =~= line);
    if has_linebreak(s) {
        let i = choose|i: int| 0 <= i < s.len() && is_linebreak(#[trigger] s[i]);
        assert(s.contains(s[i]));
    }
    if s.contains('\r') {
        let i = choose|i: int| 0 <= i < s.len() && s[i] == '\r';
        assert(is_linebreak(s[i]));
    }
    if s.contains('\n') {
        let i = choose|i: int| 0 <= i < s.len() && s[i] == '\n';
        assert(is_linebreak(s[i]));
    }
}

/// A message line is the message, all of it, behind the name of who wrote it.
pub proof fn law_message_line(msg: Seq<char>)
    ensures
        chat_message(ChatParticipant::Local, msg) == "[ LOCAL]: "@ + msg,
        chat_message(ChatParticipant::Remote, msg) == "[REMOTE]: "@ + msg,
{
    reveal_strlit("[");
    reveal_strlit(" LOCAL");
    reveal_strlit("REMOTE");
    reveal_strlit("]: ");
    reveal_strlit("[ LOCAL]: ");
    reveal_strlit("[REMOTE]: ");
    assert(chat_message(ChatParticipant::Local, msg) =~= "[ LOCAL]: "@ + msg);
    assert(chat_message(ChatParticipant::Remote, msg) =~= "[REMOTE]: "@ + msg);
}

} // verus!
