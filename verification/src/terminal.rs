//! What a terminal shows of the text that it is sent.

use crate::actions::{accepted_input, law_prompt_ignores_cuts, visible_after};
use crate::backend::{law_serial_normalizes, ChatBackend, SerialBackend};
use crate::conversation::{law_screen_shows_what_is_visible, on_screen};
use crate::echo::is_control;
use crate::helpers::is_erase;
use vstd::prelude::*;

verus! {

/// The row of a terminal in which the cursor stands.
pub struct Row {
    /// The characters in the row.
    pub cells: Seq<char>,
    /// How many cells are left of the cursor.
    pub cursor: nat,
}

impl Row {
    /// The row after the terminal got a character. A backspace moves the cursor
    /// to the left, a visible character overwrites what is under the cursor, and
    /// no other control code changes the row.
    pub open spec fn got(self, c: char) -> Row {
        if c == '\x08' {
            Row { cursor: if self.cursor == 0 { 0 } else { (self.cursor - 1) as nat }, ..self }
        } else if is_control(c) {
            self
        } else {
            Row {
                cells: if self.cursor < self.cells.len() {
                    self.cells.update(self.cursor as int, c)
                } else {
                    self.cells.push(c)
                },
                cursor: self.cursor + 1,
            }
        }
    }

    /// The row after the terminal got a text.
    pub open spec fn played(self, text: Seq<char>) -> Row
        decreases text.len(),
    {
        if text.len() == 0 {
            self
        } else {
            self.played(text.drop_last()).got(text.last())
        }
    }

    /// Whether the user sees a text, with the cursor behind it and only blanks
    /// to its right.
    pub open spec fn shows(self, text: Seq<char>) -> bool {
        &&& self.cursor == text.len()
        &&& self.cursor <= self.cells.len()
        &&& self.cells.take(self.cursor as int) == text
        &&& forall|i: int| self.cursor <= i < self.cells.len() ==> #[trigger] self.cells[i] == ' '
    }
}

proof fn lemma_played_parts(row: Row, a: Seq<char>, b: Seq<char>)
    ensures
        row.played(a + b) == row.played(a).played(b),
    decreases b.len(),
{
    if b.len() == 0 {
        assert(a + b =~= a);
    } else {
        assert((a + b).drop_last() =~= a + b.drop_last());
        lemma_played_parts(row, a, b.drop_last());
    }
}

/// A visible character is added to what the user sees.
proof fn lemma_shows_one_more(row: Row, text: Seq<char>, c: char)
    requires
        row.shows(text),
        !is_control(c),
    ensures
        row.got(c).shows(text.push(c)),
{
    let next = row.got(c);
    assert(next.cells.take(next.cursor as int) =~= text.push(c));
    assert forall|i: int| next.cursor <= i < next.cells.len() implies #[trigger] next.cells[i]
        == ' ' by {
        assert(next.cells[i] == row.cells[i]);
    }
}

/// Backspace, blank, backspace takes away the last character that the user sees.
proof fn lemma_shows_one_less(row: Row, text: Seq<char>)
    requires
        row.shows(text),
        text.len() > 0,
    ensures
        row.played(seq!['\x08', ' ', '\x08']).shows(text.drop_last()),
{
    let erase = seq!['\x08', ' ', '\x08'];
    assert(erase.drop_last() =~= seq!['\x08', ' ']);
    assert(seq!['\x08', ' '].drop_last() =~= seq!['\x08']);
    assert(seq!['\x08'].drop_last() =~= Seq::<char>::empty());
    reveal_with_fuel(Row::played, 4);
    let left = row.got('\x08');
    let blank = left.got(' ');
    assert(row.played(erase) == blank.got('\x08'));
    assert(blank.cells =~= row.cells.update(left.cursor as int, ' '));
    assert forall|i: int| 0 <= i < left.cursor implies blank.cells[i] == text[i] by {
        assert(row.cells.take(row.cursor as int)[i] == text[i]);
    }
    assert(blank.cells.take(left.cursor as int) =~= text.drop_last());
    assert forall|i: int| left.cursor <= i < blank.cells.len() implies #[trigger] blank.cells[i]
        == ' ' by {
        if i > left.cursor {
            assert(blank.cells[i] == row.cells[i]);
        }
    }
}

/// The terminal of the remote partner shows what was typed and not erased, with
/// the cursor behind it, and the prompt before it is never touched. This holds
/// of every input, after whatever was typed before.
pub proof fn law_terminal_shows_what_is_left(
    serial: SerialBackend,
    row: Row,
    prompt: Seq<char>,
    typed: Seq<char>,
    input: Seq<char>,
)
    requires
        forall|i: int| 0 <= i < typed.len() ==> !is_control(#[trigger] typed[i]),
        row.shows(prompt + typed),
    ensures
        row.played(serial.normalized(accepted_input(typed.len(), input))).shows(
            prompt + on_screen(typed + input),
        ),
    decreases input.len(),
{
    let n = typed.len();
    law_screen_shows_what_is_visible(typed);
    if input.len() == 0 {
        assert(typed + input =~= typed);
        lemma_normalized_empty(serial);
        assert(row.played(Seq::<char>::empty()) == row);
    } else {
        let front = input.drop_last();
        let c = input.last();
        let shown = accepted_input(n, front);
        let before = row.played(serial.normalized(shown));
        let left = on_screen(typed + front);
        law_terminal_shows_what_is_left(serial, row, prompt, typed, front);
        assert((typed + input).drop_last() =~= typed + front);
        law_screen_shows_what_is_visible(typed + front);
        law_prompt_ignores_cuts(0, typed, front);
        assert(visible_after(n, front) == left.len());
        if is_erase(c) && left.len() == 0 {
        } else {
            lemma_normalized_push(serial, shown, c);
            lemma_played_parts(row, serial.normalized(shown), serial.normalized(seq![c]));
            assert(seq![c].drop_last() =~= Seq::<char>::empty());
            reveal_with_fuel(Row::played, 2);
            if is_erase(c) {
                lemma_shows_one_less(before, prompt + left);
                assert((prompt + left).drop_last() =~= prompt + left.drop_last());
            } else if is_control(c) {
                assert(before.played(seq![c]) == before);
            } else {
                lemma_shows_one_more(before, prompt + left, c);
                assert((prompt + left).push(c) =~= prompt + left.push(c));
            }
        }
    }
}

proof fn lemma_normalized_push(serial: SerialBackend, s: Seq<char>, c: char)
    ensures
        serial.normalized(s.push(c)) == serial.normalized(s) + serial.normalized(seq![c]),
        is_erase(c) ==> serial.normalized(seq![c]) == seq!['\x08', ' ', '\x08'],
        !is_erase(c) ==> serial.normalized(seq![c]) == seq![c],
{
    assert(s.push(c) =~= s + seq![c]);
    law_serial_normalizes(serial, s, seq![c], c);
}

proof fn lemma_normalized_empty(serial: SerialBackend)
    ensures
        serial.normalized(Seq::<char>::empty()) == Seq::<char>::empty(),
{
    let empty = Seq::<char>::empty();
    law_serial_normalizes(serial, empty, empty, 'a');
    assert(empty + empty =~= empty);
    let twice = serial.normalized(empty) + serial.normalized(empty);
    assert(twice.len() == serial.normalized(empty).len());
    assert(serial.normalized(empty) =~= empty);
}

} // verus!
