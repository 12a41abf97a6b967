//! Numbers as the user reads and types them.

use vstd::prelude::*;
use vstd::string::*;

verus! {

/// The decimal digit of a value below ten.
pub open spec fn digit_char(d: nat) -> char {
    ('0' as nat + d) as char
}

/// A number in decimal, without leading zeros.
pub open spec fn decimal(n: nat) -> Seq<char>
    decreases n,
{
    if n < 10 {
        seq![digit_char(n)]
    } else {
        decimal(n / 10).push(digit_char(n % 10))
    }
}

/// Whether a character is a decimal digit.
pub open spec fn is_digit(c: char) -> bool {
    '0' <= c <= '9'
}

/// Whether a text is made of decimal digits only.
pub open spec fn all_digits(s: Seq<char>) -> bool {
    forall|i: int| 0 <= i < s.len() ==> is_digit(#[trigger] s[i])
}

/// The number that decimal digits stand for.
pub open spec fn decimal_value(digits: Seq<char>) -> nat
    decreases digits.len(),
{
    if digits.len() == 0 {
        0
    } else {
        (decimal_value(digits.drop_last()) * 10 + (digits.last() as nat - '0' as nat)) as nat
    }
}

/// A text without the plus sign that it may start with.
pub open spec fn without_sign(s: Seq<char>) -> Seq<char> {
    if s.len() > 0 && s[0] == '+' {
        s.drop_first()
    } else {
        s
    }
}

/// The number that a text stands for: an optional plus sign, then decimal
/// digits and nothing else, for a number that fits a `usize`.
pub open spec fn parsed_usize(s: Seq<char>) -> Option<usize> {
    let digits = without_sign(s);
    if digits.len() > 0 && all_digits(digits) && decimal_value(digits) <= usize::MAX {
        Some(decimal_value(digits) as usize)
    } else {
        None
    }
}

/// Appends a number in decimal.
pub fn push_decimal(text: &mut String, n: usize)
    ensures
        final(text)@ == old(text)@ + decimal(n as nat),
    decreases n,
{
    let digit: u8 = (n % 10) as u8;
    if n >= 10 {
        push_decimal(text, n / 10);
    }
    text.push(('0' as u8 + digit) as char);
    proof {
        assert(text@ =~= old(text)@ + decimal(n as nat));
    }
}

proof fn lemma_value_grows(s: Seq<char>, n: int)
    requires
        0 <= n <= s.len(),
        all_digits(s),
    ensures
        decimal_value(s.take(n)) <= decimal_value(s),
    decreases s.len(),
{
    if n < s.len() {
        lemma_value_grows(s.drop_last(), n);
        assert(s.drop_last().take(n) =~= s.take(n));
        assert(is_digit(s.last()));
    } else {
        assert(s.take(n) =~= s);
    }
}

/// Reads a number as `usize::from_str` does.
pub fn parse_usize(text: &str) -> (number: Option<usize>)
    ensures
        number == parsed_usize(text@),
{
    let n: usize = text.unicode_len();
    if n == 0 {
        return None;
    }
    let digits: &str = if text.get_char(0) == '+' {
        text.substring_char(1, n)
    } else {
        text
    };
    proof {
        assert(text@.subrange(1, n as int) =~= text@.drop_first());
        assert(digits@ == without_sign(text@));
    }
    if digits.is_empty() {
        return None;
    }
    let mut value: usize = 0;
    for c in it: digits.chars()
        invariant
            it.seq() == digits@,
            digits@ == without_sign(text@),
            all_digits(digits@.take(it.index() as int)),
            value == decimal_value(digits@.take(it.index() as int)),
    {
        let ghost i = it.index() as int;
        proof {
            assert(digits@.take(i + 1).drop_last() =~= digits@.take(i));
            assert(digits@.take(i + 1).last() == c);
        }
        if c < '0' || '9' < c {
            assert(!is_digit(digits@[i]));
            return None;
        }
        let digit: usize = (c as u32 - '0' as u32) as usize;
        let next: Option<usize> = match value.checked_mul(10) {
            Some(shifted) => shifted.checked_add(digit),
            None => None,
        };
        match next {
            Some(v) => {
                value = v;
            },
            None => {
                proof {
                    if all_digits(digits@) {
                        lemma_value_grows(digits@, i + 1);
                    }
                }
                return None;
            },
        }
        proof {
            assert forall|k: int| 0 <= k < i + 1 implies is_digit(
                #[trigger] digits@.take(i + 1)[k],
            ) by {
                if k < i {
                    assert(digits@.take(i)[k] == digits@[k]);
                }
            }
        }
    }
    proof {
        assert(digits@.take(digits@.len() as int) =~= digits@);
    }
    Some(value)
}

proof fn lemma_decimal_reads_back(n: nat)
    ensures
        decimal(n).len() > 0,
        all_digits(decimal(n)),
        decimal_value(decimal(n)) == n,
    decreases n,
{
    if n < 10 {
        assert(decimal(n).drop_last() =~= Seq::<char>::empty());
        assert(decimal_value(Seq::<char>::empty()) == 0);
    } else {
        lemma_decimal_reads_back(n / 10);
        assert(decimal(n).drop_last() =~= decimal(n / 10));
    }
}

/// A user who types a number as it was shown gets that number.
pub proof fn law_shown_number_reads_back(n: usize)
    ensures
        parsed_usize(decimal(n as nat)) == Some(n),
{
    lemma_decimal_reads_back(n as nat);
    assert(is_digit(decimal(n as nat)[0]));
}

/// A number is written digit by digit: another digit behind it makes ten times
/// the number and that digit.
pub proof fn law_decimal_digits(n: nat, d: nat)
    requires
        d < 10,
    ensures
        decimal(d) == seq!["0123456789"@[d as int]],
        n > 0 ==> decimal(10 * n + d) == decimal(n).push("0123456789"@[d as int]),
{
    lemma_digit(d);
    assert((10 * n + d) / 10 == n);
    assert((10 * n + d) % 10 == d);
}

/// The ten digits stand in the order of their values.
proof fn lemma_digit(d: nat)
    requires
        d < 10,
    ensures
        digit_char(d) == "0123456789"@[d as int],
        is_digit(digit_char(d)),
        digit_char(d) as nat - '0' as nat == d,
{
    reveal_strlit("0123456789");
}

/// Reading goes digit by digit, too. Another digit behind a number makes ten
/// times the number and that digit, where that fits.
pub proof fn law_digits_are_read(s: Seq<char>, d: nat)
    requires
        d < 10,
    ensures
        parsed_usize(seq!["0123456789"@[d as int]]) == Some(d as usize),
        parsed_usize(s) matches Some(n) ==> parsed_usize(s.push("0123456789"@[d as int])) == (if 10
            * n + d <= usize::MAX {
            Some((10 * n + d) as usize)
        } else {
            None::<usize>
        }),
{
    lemma_digit(d);
    let c = "0123456789"@[d as int];
    assert(seq![c].drop_last() =~= Seq::<char>::empty());
    assert(decimal_value(Seq::<char>::empty()) == 0);
    assert(decimal_value(seq![c]) == d);
    assert(without_sign(seq![c]) =~= seq![c]);
    if parsed_usize(s) is Some {
        let digits = without_sign(s);
        assert(without_sign(s.push(c)) =~= digits.push(c));
        assert(digits.push(c).drop_last() =~= digits);
        assert forall|i: int| 0 <= i < digits.push(c).len() implies is_digit(
            #[trigger] digits.push(c)[i],
        ) by {
            if i < digits.len() {
                assert(is_digit(digits[i]));
            }
        }
    }
}

/// A plus sign in front of a digit changes nothing. Anything else but digits is
/// no number, nor is nothing, nor is a plus sign alone.
pub proof fn law_only_numbers_are_read(s: Seq<char>, i: int)
    ensures
        s.len() > 0 && s[0] != '+' ==> parsed_usize(seq!['+'] + s) == parsed_usize(s),
        0 <= i < s.len() && !("0123456789"@.contains(s[i])) && !(i == 0 && s[i] == '+')
            ==> parsed_usize(s) is None,
        s.len() == 0 ==> parsed_usize(s) is None && parsed_usize(seq!['+'] + s) is None,
{
    assert((seq!['+'] + s).drop_first() =~= s);
    if 0 <= i < s.len() && !("0123456789"@.contains(s[i])) && !(i == 0 && s[i] == '+') {
        let digits = without_sign(s);
        let k = if s[0] == '+' { i - 1 } else { i };
        assert(digits[k] == s[i]);
        if is_digit(digits[k]) {
            let d = (s[i] as nat - '0' as nat) as nat;
            lemma_digit(d);
            reveal_strlit("0123456789");
            assert("0123456789"@[d as int] == s[i]);
        }
    }
}

/// A number that is too large stays too large with another digit.
pub proof fn law_too_large_stays_too_large(s: Seq<char>, d: nat)
    requires
        d < 10,
        s.len() > 0,
        s != seq!['+'],
        parsed_usize(s) is None,
    ensures
        parsed_usize(s.push("0123456789"@[d as int])) is None,
{
    let c = "0123456789"@[d as int];
    lemma_digit(d);
    let digits = without_sign(s);
    if s.len() == 1 {
        assert(s =~= seq![s[0]]);
    }
    assert(digits.len() > 0);
    assert(without_sign(s.push(c)) =~= digits.push(c));
    let more = digits.push(c);
    assert(more.drop_last() =~= digits);
    if all_digits(more) {
        assert forall|i: int| 0 <= i < digits.len() implies is_digit(#[trigger] digits[i]) by {
            assert(is_digit(more[i]));
        }
        assert(decimal_value(more) >= decimal_value(digits));
    }
}

} // verus!
