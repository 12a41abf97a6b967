//! How text is put on a screen: line ends, erased characters, and how many
//! characters of it the user sees.

use crate::helpers::{
    erase_count, erase_sequence, first_line, has_linebreak, is_erase, is_linebreak, law_first_line,
    lemma_erase_sequence_prefix, lemma_stripped_step, lemma_without_erases_front, limit_erases,
    remove_all, stripped, without_erases, BACKSPACE, DELETE,
};
use vstd::prelude::*;
use vstd::string::*;

verus! {

/// Whether a character is an ASCII or Latin-1 control code.
pub open spec fn is_control(c: char) -> bool {
    c <= '\u{1f}' || '\u{7f}' <= c <= '\u{9f}'
}

/// How many characters of the text can be seen.
pub open spec fn visible_count(s: Seq<char>) -> nat
    decreases s.len(),
{
    if s.len() == 0 {
        0
    } else {
        visible_count(s.drop_last()) + if is_control(s.last()) { 0nat } else { 1nat }
    }
}

/// The text with a carriage return before each line feed.
pub open spec fn device_text(s: Seq<char>) -> Seq<char>
    decreases s.len(),
{
    if s.len() == 0 {
        seq![]
    } else if s.last() == '\n' {
        device_text(s.drop_last()) + seq!['\r', '\n']
    } else {
        device_text(s.drop_last()).push(s.last())
    }
}

/// The text with an erase sequence in place of each erase character.
pub open spec fn erases_spelled_out(s: Seq<char>) -> Seq<char>
    decreases s.len(),
{
    if s.len() == 0 {
        seq![]
    } else if is_erase(s.last()) {
        erases_spelled_out(s.drop_last()) + erase_sequence()
    } else {
        erases_spelled_out(s.drop_last()).push(s.last())
    }
}

/// Tells whether a character is an ASCII or Latin-1 control code.
pub(crate) fn is_control_code(c: char) -> (control: bool)
    ensures
        control == is_control(c),
{
    c <= '\u{1f}' || ('\u{7f}' <= c && c <= '\u{9f}')
}

/// Counts the characters that are no control codes.
pub fn count_visible(text: &str) -> (n: usize)
    ensures
        n == visible_count(text@),
{
    let len: usize = text.unicode_len();
    let mut n: usize = 0;
    for c in it: text.chars()
        invariant
            it.seq() == text@,
            len == text@.len(),
            n == visible_count(text@.take(it.index() as int)),
            n <= it.index(),
    {
        proof {
            assert(text@.take(it.index() + 1).drop_last() =~= text@.take(it.index() as int));
        }
        if !is_control_code(c) {
            n = n + 1;
        }
    }
    proof {
        assert(text@.take(text@.len() as int) =~= text@);
    }
    n
}

/// Counts the characters that take back another one.
pub fn count_erases(text: &str) -> (n: usize)
    ensures
        n == erase_count(text@),
{
    let len: usize = text.unicode_len();
    let mut n: usize = 0;
    for c in it: text.chars()
        invariant
            it.seq() == text@,
            len == text@.len(),
            n == erase_count(text@.take(it.index() as int)),
            n <= it.index(),
    {
        proof {
            assert(text@.take(it.index() + 1).drop_last() =~= text@.take(it.index() as int));
        }
        if c == BACKSPACE || c == DELETE {
            n = n + 1;
        }
    }
    proof {
        assert(text@.take(text@.len() as int) =~= text@);
    }
    n
}

/// Puts a carriage return before each line feed, as screens and terminals need
/// it.
pub fn to_device_text(text: &str) -> (out: String)
    ensures
        out@ == device_text(text@),
{
    let mut out: String = String::new();
    for c in it: text.chars()
        invariant
            it.seq() == text@,
            out@ == device_text(text@.take(it.index() as int)),
    {
        proof {
            assert(text@.take(it.index() + 1).drop_last() =~= text@.take(it.index() as int));
        }
        let ghost before = out@;
        if c == '\n' {
            out.push('\r');
        }
        out.push(c);
        proof {
            if c == '\n' {
                assert(out@ =~= before + seq!['\r', '\n']);
            }
        }
    }
    proof {
        assert(text@.take(text@.len() as int) =~= text@);
    }
    out
}

/// Replaces each backspace and delete by the sequence that blanks a character
/// on a terminal.
pub fn spell_out_erases(text: &str) -> (out: String)
    ensures
        out@ == erases_spelled_out(text@),
{
    let mut out: String = String::new();
    for c in it: text.chars()
        invariant
            it.seq() == text@,
            out@ == erases_spelled_out(text@.take(it.index() as int)),
    {
        proof {
            assert(text@.take(it.index() + 1).drop_last() =~= text@.take(it.index() as int));
        }
        let ghost before = out@;
        if c == BACKSPACE || c == DELETE {
            out.push(BACKSPACE);
            out.push(' ');
            out.push(BACKSPACE);
            proof {
                assert(out@ =~= before + erase_sequence());
            }
        } else {
            out.push(c);
        }
    }
    proof {
        assert(text@.take(text@.len() as int) =~= text@);
    }
    out
}

proof fn lemma_spelled_out_concat(a: Seq<char>, b: Seq<char>)
    ensures
        erases_spelled_out(a + b) == erases_spelled_out(a) + erases_spelled_out(b),
    decreases b.len(),
{
    if b.len() == 0 {
        assert(a + b =~= a);
        assert(erases_spelled_out(a) + erases_spelled_out(b) =~= erases_spelled_out(a));
    } else {
        assert((a + b).drop_last() =~= a + b.drop_last());
        lemma_spelled_out_concat(a, b.drop_last());
        assert(erases_spelled_out(a + b) =~= erases_spelled_out(a) + erases_spelled_out(b));
    }
}

/// What is stripped from an echo are the characters that the user erased with,
/// and nothing else.
pub proof fn law_strip_undoes_spelling_out(s: Seq<char>)
    ensures
        stripped(erases_spelled_out(s)) == without_erases(s),
    decreases s.len(),
{
    if s.len() == 0 {
        assert(stripped(Seq::<char>::empty()) =~= Seq::<char>::empty());
        assert(without_erases(s) =~= Seq::<char>::empty());
    } else {
        let head = seq![s[0]];
        let rest = s.drop_first();
        assert(s =~= head + rest);
        lemma_spelled_out_concat(head, rest);
        law_strip_undoes_spelling_out(rest);
        lemma_without_erases_front(s[0], rest);
        let shown = erases_spelled_out(s);
        assert(head.drop_last() =~= Seq::<char>::empty());
        assert(erases_spelled_out(Seq::<char>::empty()) =~= Seq::<char>::empty());
        if is_erase(s[0]) {
            assert(erases_spelled_out(head) =~= erase_sequence());
            assert(shown.skip(3) =~= erases_spelled_out(rest));
            lemma_erase_sequence_prefix(shown);
            lemma_stripped_step(shown);
        } else {
            assert(erases_spelled_out(head) =~= head);
            assert(shown.drop_first() =~= erases_spelled_out(rest));
            lemma_stripped_step(shown);
        }
    }
}

/// Of the erase characters, limiting keeps the allowed number, or all where
/// there are fewer.
pub proof fn law_limit_bounds_erases(s: Seq<char>, allowed: nat)
    ensures
        erase_count(limit_erases(s, allowed)) == (if erase_count(s) <= allowed {
            erase_count(s)
        } else {
            allowed
        }),
    decreases s.len(),
{
    if s.len() > 0 {
        let kept = limit_erases(s.drop_last(), allowed);
        law_limit_bounds_erases(s.drop_last(), allowed);
        assert(kept.push(s.last()).drop_last() =~= kept);
    }
}

/// Limiting takes away erase characters only.
pub proof fn law_limit_keeps_other_characters(s: Seq<char>, allowed: nat)
    ensures
        without_erases(limit_erases(s, allowed)) == without_erases(s),
    decreases s.len(),
{
    reveal(Seq::filter);
    if s.len() > 0 {
        let kept = limit_erases(s.drop_last(), allowed);
        law_limit_keeps_other_characters(s.drop_last(), allowed);
        assert(kept.push(s.last()).drop_last() =~= kept);
    }
}

/// A text with no more erase characters than are allowed stays as it is.
pub proof fn law_limit_within_allowance(s: Seq<char>, allowed: nat)
    requires
        erase_count(s) <= allowed,
    ensures
        limit_erases(s, allowed) == s,
    decreases s.len(),
{
    if s.len() > 0 {
        law_limit_within_allowance(s.drop_last(), allowed);
        assert(s.drop_last().push(s.last()) =~= s);
    }
}

proof fn lemma_without_erases_clean(s: Seq<char>)
    ensures
        erase_count(without_erases(s)) == 0,
        erase_count(s) == 0 ==> without_erases(s) == s,
    decreases s.len(),
{
    reveal(Seq::filter);
    if s.len() > 0 {
        let kept = without_erases(s.drop_last());
        lemma_without_erases_clean(s.drop_last());
        assert(kept.push(s.last()).drop_last() =~= kept);
        assert(s.drop_last().push(s.last()) =~= s);
    }
}

/// A stripped text has no erase characters left.
pub proof fn law_strip_leaves_no_erases(s: Seq<char>)
    ensures
        erase_count(stripped(s)) == 0,
{
    lemma_without_erases_clean(remove_all(s, erase_sequence()));
}

/// A text without erase characters is stripped of nothing.
pub proof fn law_strip_keeps_clean_text(s: Seq<char>)
    requires
        erase_count(s) == 0,
    ensures
        stripped(s) == s,
{
    lemma_no_sequence_without_erase(s);
    lemma_without_erases_clean(s);
}

proof fn lemma_erase_count_concat(a: Seq<char>, b: Seq<char>)
    ensures
        erase_count(a + b) == erase_count(a) + erase_count(b),
    decreases b.len(),
{
    if b.len() == 0 {
        assert(a + b =~= a);
    } else {
        assert((a + b).drop_last() =~= a + b.drop_last());
        lemma_erase_count_concat(a, b.drop_last());
    }
}

proof fn lemma_no_sequence_without_erase(s: Seq<char>)
    requires
        erase_count(s) == 0,
    ensures
        remove_all(s, erase_sequence()) == s,
    decreases s.len(),
{
    if s.len() > 0 {
        let head = seq![s[0]];
        assert(s =~= head + s.drop_first());
        lemma_erase_count_concat(head, s.drop_first());
        assert(head.drop_last() =~= Seq::<char>::empty());
        reveal_with_fuel(erase_count, 2);
        assert(erase_count(head) == 0);
        assert(!is_erase(s[0]));
        lemma_erase_sequence_prefix(s);
        lemma_no_sequence_without_erase(s.drop_first());
    }
}

/// Every line feed that a device gets follows a carriage return.
pub proof fn law_device_text_line_ends(s: Seq<char>, i: int)
    requires
        0 <= i < device_text(s).len(),
        device_text(s)[i] == '\n',
    ensures
        i > 0,
        device_text(s)[i - 1] == '\r',
    decreases s.len(),
{
    let before = device_text(s.drop_last());
    if i < before.len() {
        law_device_text_line_ends(s.drop_last(), i);
    }
}

proof fn lemma_without_erases_adds_nothing(s: Seq<char>)
    ensures
        has_linebreak(without_erases(s)) ==> has_linebreak(s),
    decreases s.len(),
{
    reveal(Seq::filter);
    let kept = without_erases(s);
    if has_linebreak(kept) && s.len() > 0 {
        let front = without_erases(s.drop_last());
        lemma_without_erases_adds_nothing(s.drop_last());
        let i = choose|i: int| 0 <= i < kept.len() && is_linebreak(#[trigger] kept[i]);
        if i < front.len() {
            assert(front[i] == kept[i]);
            let k = choose|k: int|
                0 <= k < s.drop_last().len() && is_linebreak(#[trigger] s.drop_last()[k]);
            assert(s[k] == s.drop_last()[k]);
        } else {
            assert(s[s.len() - 1] == kept[i]);
        }
    }
}

proof fn lemma_remove_all_adds_nothing(s: Seq<char>, pattern: Seq<char>)
    ensures
        has_linebreak(remove_all(s, pattern)) ==> has_linebreak(s),
    decreases s.len(),
{
    if pattern.len() == 0 || s.len() == 0 {
    } else if pattern.is_prefix_of(s) {
        let rest = s.skip(pattern.len() as int);
        lemma_remove_all_adds_nothing(rest, pattern);
        if has_linebreak(rest) {
            let i = choose|i: int| 0 <= i < rest.len() && is_linebreak(#[trigger] rest[i]);
            assert(s[i + pattern.len()] == rest[i]);
        }
    } else {
        let rest = s.drop_first();
        let kept = remove_all(s, pattern);
        lemma_remove_all_adds_nothing(rest, pattern);
        if has_linebreak(kept) {
            let i = choose|i: int| 0 <= i < kept.len() && is_linebreak(#[trigger] kept[i]);
            if i == 0 {
                assert(kept[0] == s[0]);
            } else {
                assert(remove_all(rest, pattern)[i - 1] == kept[i]);
                let k = choose|k: int| 0 <= k < rest.len() && is_linebreak(#[trigger] rest[k]);
                assert(s[k + 1] == rest[k]);
            }
        }
    }
}

/// A line that was entered has neither a line break nor an erase character in
/// it.
pub proof fn law_entered_line_is_clean(buffer: Seq<char>)
    ensures
        !has_linebreak(stripped(first_line(buffer))),
        erase_count(stripped(first_line(buffer))) == 0,
{
    law_first_line(buffer);
    law_strip_leaves_no_erases(first_line(buffer));
    lemma_remove_all_adds_nothing(first_line(buffer), erase_sequence());
    lemma_without_erases_adds_nothing(remove_all(first_line(buffer), erase_sequence()));
}

/// Stripping a text twice is stripping it once.
pub proof fn law_strip_is_idempotent(s: Seq<char>)
    ensures
        stripped(stripped(s)) == stripped(s),
{
    law_strip_leaves_no_erases(s);
    law_strip_keeps_clean_text(stripped(s));
}

/// The control codes are those below the blank and those from delete to 0x9f;
/// all other characters can be seen.
pub proof fn law_visible_characters(s: Seq<char>, c: char)
    ensures
        is_control(c) <==> (c as u32) < 0x20 || 0x7f <= (c as u32) <= 0x9f,
        visible_count(s) == s.filter(
            |c: char| (c as u32) >= 0x20 && !(0x7f <= (c as u32) <= 0x9f),
        ).len(),
    decreases s.len(),
{
    reveal(Seq::filter);
    if s.len() > 0 {
        law_visible_characters(s.drop_last(), s.last());
    }
}

/// A device gets every character of a text, in order, and nothing else but a
/// carriage return before each line feed.
pub proof fn law_device_gets_every_character(a: Seq<char>, b: Seq<char>, c: char)
    ensures
        device_text(a + b) == device_text(a) + device_text(b),
        c != '\n' ==> device_text(seq![c]) == seq![c],
        device_text(seq!['\n']) == seq!['\r', '\n'],
    decreases b.len(),
{
    let empty = Seq::<char>::empty();
    assert(seq![c].drop_last() =~= empty);
    assert(seq!['\n'].drop_last() =~= empty);
    assert(empty.push(c) =~= seq![c]);
    assert(empty + seq!['\r', '\n'] =~= seq!['\r', '\n']);
    reveal_with_fuel(device_text, 2);
    if b.len() == 0 {
        assert(a + b =~= a);
        assert(device_text(a) + device_text(b) =~= device_text(a));
    } else {
        assert((a + b).drop_last() =~= a + b.drop_last());
        law_device_gets_every_character(a, b.drop_last(), c);
        assert(device_text(a + b) =~= device_text(a) + device_text(b));
    }
}

/// What is written to a device can be told from what it gets: two texts that
/// look the same to a device are the same, once carriage returns are left out.
pub proof fn law_device_text_keeps_characters(s: Seq<char>)
    ensures
        device_text(s).filter(|c: char| c != '\r') == s.filter(|c: char| c != '\r'),
    decreases s.len(),
{
    let keep = |c: char| c != '\r';
    reveal(Seq::filter);
    if s.len() > 0 {
        let front = device_text(s.drop_last());
        law_device_text_keeps_characters(s.drop_last());
        if s.last() == '\n' {
            let end = seq!['\r', '\n'];
            Seq::filter_distributes_over_add(front, end, keep);
            assert(end.drop_last() =~= seq!['\r']);
            assert(seq!['\r'].drop_last() =~= Seq::<char>::empty());
            reveal_with_fuel(Seq::filter, 3);
            assert(end.filter(keep) =~= seq!['\n']);
            assert(device_text(s).filter(keep) =~= s.filter(keep));
        } else {
            assert(front.push(s.last()).drop_last() =~= front);
        }
    }
}

/// Each backspace and each delete, wherever it stands, is spelled out as
/// backspace, blank, backspace; every other character stays as it is; and
/// nothing is left that is a delete.
pub proof fn law_each_erase_is_spelled_out(a: Seq<char>, b: Seq<char>, c: char)
    ensures
        erases_spelled_out(a + b) == erases_spelled_out(a) + erases_spelled_out(b),
        erases_spelled_out(seq!['\x08']) == seq!['\x08', ' ', '\x08'],
        erases_spelled_out(seq!['\x7f']) == seq!['\x08', ' ', '\x08'],
        c != '\x08' && c != '\x7f' ==> erases_spelled_out(seq![c]) == seq![c],
        !erases_spelled_out(a).contains('\x7f'),
{
    let empty = Seq::<char>::empty();
    lemma_spelled_out_concat(a, b);
    lemma_no_delete(a);
    assert(seq![c].drop_last() =~= empty);
    assert(seq!['\x08'].drop_last() =~= empty);
    assert(seq!['\x7f'].drop_last() =~= empty);
    assert(empty.push(c) =~= seq![c]);
    assert(empty + erase_sequence() =~= seq!['\x08', ' ', '\x08']);
    reveal_with_fuel(erases_spelled_out, 2);
}

proof fn lemma_no_delete(s: Seq<char>)
    ensures
        forall|i: int|
            0 <= i < erases_spelled_out(s).len() ==> #[trigger] erases_spelled_out(s)[i] != '\x7f',
    decreases s.len(),
{
    if s.len() > 0 {
        let front = erases_spelled_out(s.drop_last());
        lemma_no_delete(s.drop_last());
        assert forall|i: int| 0 <= i < erases_spelled_out(s).len() implies
            #[trigger] erases_spelled_out(s)[i] != '\x7f' by {
            if i < front.len() {
                assert(erases_spelled_out(s)[i] == front[i]);
            } else if is_erase(s.last()) {
                assert(erases_spelled_out(s)[i] == erase_sequence()[i - front.len()]);
            }
        }
    }
}

} // verus!
