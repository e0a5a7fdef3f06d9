//! Text as the timer needs it: whether one text stands in another, and which
//! number a text writes.

use vstd::prelude::*;
use vstd::string::StringExecFns;

verus! {

/// Whether `pattern` stands in `text` at position `at`.
pub open spec fn occurs_at(text: Seq<char>, pattern: Seq<char>, at: int) -> bool {
    &&& 0 <= at
    &&& at + pattern.len() <= text.len()
    &&& forall|i: int| 0 <= i < pattern.len() ==> #[trigger] text[at + i] == pattern[i]
}

/// Whether `pattern` stands somewhere in `text`.
pub open spec fn occurs(text: Seq<char>, pattern: Seq<char>) -> bool {
    exists|at: int| occurs_at(text, pattern, at)
}

/// Whether `c` is one of the digits 0 to 9.
pub open spec fn is_digit(c: char) -> bool {
    '0' <= c <= '9'
}

/// The number that the digits in `digits` write in base ten.
pub open spec fn decimal_value(digits: Seq<char>) -> int
    decreases digits.len(),
{
    if digits.len() == 0 {
        0
    } else {
        10 * decimal_value(digits.drop_last()) + (digits.last() as int - '0' as int)
    }
}

/// What of `text` is left without a plus sign at its start.
pub open spec fn unsigned_part(text: Seq<char>) -> Seq<char> {
    if text.len() > 0 && text[0] == '+' {
        text.skip(1)
    } else {
        text
    }
}

/// Whether `text` writes a number: one digit or more, with or without a plus
/// sign before them, and nothing else.
pub open spec fn is_number(text: Seq<char>) -> bool {
    let digits = unsigned_part(text);
    digits.len() > 0 && forall|i: int| 0 <= i < digits.len() ==> is_digit(#[trigger] digits[i])
}

/// The number that `text` writes, where it fits the machine's word.
pub open spec fn number_of(text: Seq<char>) -> Option<usize> {
    if is_number(text) && decimal_value(unsigned_part(text)) <= usize::MAX {
        Some(decimal_value(unsigned_part(text)) as usize)
    } else {
        None
    }
}

/// The characters of `text`, one by one.
pub(crate) fn characters(text: &str) -> (chars: Vec<char>)
    ensures
        chars@ == text@,
{
    let mut chars: Vec<char> = Vec::new();
    for c in it: text.chars()
        invariant
            it.seq() == text@,
            chars@ == it.seq().take(it.index() as int),
    {
        chars.push(c);
    }
    proof {
        assert(chars@ =~= text@);
    }
    chars
}

/// Whether `pattern` stands in `text` at position `at`.
pub(crate) fn matches_at(text: &Vec<char>, pattern: &Vec<char>, at: usize) -> (found: bool)
    requires
        at + pattern@.len() <= text@.len(),
    ensures
        found == occurs_at(text@, pattern@, at as int),
{
    let length: usize = text.len();
    let mut i: usize = 0;
    while i < pattern.len()
        invariant
            at + pattern@.len() <= text@.len() == length,
            i <= pattern@.len(),
            forall|k: int| 0 <= k < i ==> #[trigger] text@[at + k] == pattern@[k],
        decreases pattern@.len() - i,
    {
        if text[at + i] != pattern[i] {
            return false;
        }
        i += 1;
    }
    true
}

/// Whether `pattern` stands somewhere in `text`.
pub(crate) fn contains_chars(text: &Vec<char>, pattern: &Vec<char>) -> (found: bool)
    ensures
        found == occurs(text@, pattern@),
{
    if pattern.len() > text.len() {
        return false;
    }
    let mut at: usize = 0;
    while at <= text.len() - pattern.len()
        invariant
            pattern@.len() <= text@.len(),
            at <= text@.len() - pattern@.len() + 1,
            forall|k: int| 0 <= k < at ==> !occurs_at(text@, pattern@, k),
        decreases text@.len() - pattern@.len() + 1 - at,
    {
        if matches_at(text, pattern, at) {
            return true;
        }
        at += 1;
    }
    false
}

/// Whether `pattern` stands somewhere in `text`.
pub fn contains(text: &str, pattern: &str) -> (found: bool)
    ensures
        found == occurs(text@, pattern@),
{
    contains_chars(&characters(text), &characters(pattern))
}

/// Whether `text` begins with `pattern`.
pub fn starts_with(text: &str, pattern: &str) -> (found: bool)
    ensures
        found == occurs_at(text@, pattern@, 0),
{
    let text = characters(text);
    let pattern = characters(pattern);
    pattern.len() <= text.len() && matches_at(&text, &pattern, 0)
}

/// Reads the number that `text` writes in base ten. There is none where
/// `text` is empty, holds anything but digits after an optional plus sign,
/// or writes a number too large for the machine's word.
pub fn parse_number(text: &str) -> (number: Option<usize>)
    ensures
        number == number_of(text@),
{
    let chars = characters(text);
    let length: usize = chars.len();
    let start: usize = if length > 0 && chars[0] == '+' {
        1
    } else {
        0
    };
    if start == length {
        return None;
    }
    let ghost digits = unsigned_part(text@);
    let mut value: usize = 0;
    let mut i: usize = start;
    while i < length
        invariant
            chars@ == text@,
            length == text@.len(),
            start <= i <= length,
            digits == unsigned_part(text@),
            digits.len() == length - start,
            forall|k: int| 0 <= k < digits.len() ==> digits[k] == text@[start + k],
            forall|k: int| 0 <= k < i - start ==> is_digit(#[trigger] digits[k]),
            value == decimal_value(digits.take(i - start)),
        decreases length - i,
    {
        let c: char = chars[i];
        proof {
            assert(digits[i - start] == text@[start + (i - start)]);
            assert(digits[i - start] == c);
        }
        if c < '0' || c > '9' {
            proof {
                assert(!is_digit(digits[i - start]));
            }
            return None;
        }
        let digit: usize = (c as u32 - '0' as u32) as usize;
        proof {
            let next = digits.take(i - start + 1);
            assert(next.drop_last() =~= digits.take(i - start));
            assert(next.last() == c);
            assert(decimal_value(next) == 10 * value + digit);
        }
        if value > (usize::MAX - digit) / 10 {
            proof {
                if is_number(text@) {
                    lemma_decimal_value_grows(digits, i - start + 1);
                }
            }
            return None;
        }
        value = value * 10 + digit;
        i += 1;
    }
    proof {
        assert(digits.take(length - start) =~= digits);
    }
    Some(value)
}

/// A number is at least as large as what its first digits write.
proof fn lemma_decimal_value_grows(digits: Seq<char>, k: int)
    requires
        0 <= k <= digits.len(),
        forall|i: int| 0 <= i < digits.len() ==> is_digit(#[trigger] digits[i]),
    ensures
        0 <= decimal_value(digits.take(k)) <= decimal_value(digits),
    decreases digits.len() - k,
{
    if k == digits.len() {
        assert(digits.take(k) =~= digits);
        lemma_decimal_value_is_natural(digits);
    } else {
        let next = digits.take(k + 1);
        assert(next.drop_last() =~= digits.take(k));
        assert(is_digit(digits[k]));
        assert(next.last() == digits[k]);
        lemma_decimal_value_grows(digits, k + 1);
        assert forall|i: int| 0 <= i < digits.take(k).len() implies is_digit(
            #[trigger] digits.take(k)[i],
        ) by {
            assert(digits.take(k)[i] == digits[i]);
        }
        lemma_decimal_value_is_natural(digits.take(k));
    }
}

/// What digits write is not negative.
proof fn lemma_decimal_value_is_natural(digits: Seq<char>)
    requires
        forall|i: int| 0 <= i < digits.len() ==> is_digit(#[trigger] digits[i]),
    ensures
        0 <= decimal_value(digits),
    decreases digits.len(),
{
    if digits.len() > 0 {
        assert(is_digit(digits[digits.len() - 1]));
        assert forall|i: int| 0 <= i < digits.drop_last().len() implies is_digit(
            #[trigger] digits.drop_last()[i],
        ) by {
            assert(digits.drop_last()[i] == digits[i]);
        }
        lemma_decimal_value_is_natural(digits.drop_last());
    }
}

/// Whether two texts are the same.
pub fn same_text(first: &str, second: &str) -> (same: bool)
    ensures
        same == (first@ == second@),
{
    let first_chars = characters(first);
    let second_chars = characters(second);
    let same = first_chars.len() == second_chars.len() && matches_at(
        &first_chars,
        &second_chars,
        0,
    );
    proof {
        if same {
            assert forall|i: int| 0 <= i < second@.len() implies first@[i] == second@[i] by {
                assert(first@[0 + i] == second@[i]);
            }
            assert(first@ =~= second@);
        }
    }
    same
}

/// The digit that writes `d`, a number below ten.
pub open spec fn digit_char(d: int) -> char {
    if d == 0 {
        '0'
    } else if d == 1 {
        '1'
    } else if d == 2 {
        '2'
    } else if d == 3 {
        '3'
    } else if d == 4 {
        '4'
    } else if d == 5 {
        '5'
    } else if d == 6 {
        '6'
    } else if d == 7 {
        '7'
    } else if d == 8 {
        '8'
    } else {
        '9'
    }
}

/// The digits that write `number` in base ten, without zeros before them.
pub open spec fn decimal_text(number: nat) -> Seq<char>
    decreases number,
{
    if number < 10 {
        seq![digit_char(number as int)]
    } else {
        decimal_text(number / 10).push(digit_char((number % 10) as int))
    }
}

/// The digits that write `number` in two places at least: with a zero before
/// a number below ten.
pub open spec fn two_digit_text(number: nat) -> Seq<char> {
    if number < 10 {
        seq!['0'] + decimal_text(number)
    } else {
        decimal_text(number)
    }
}

/// The digit that writes `d`, as a text.
fn digit_text(d: usize) -> (text: &'static str)
    requires
        d < 10,
    ensures
        text@ == seq![digit_char(d as int)],
{
    proof {
        reveal_strlit("0");
        reveal_strlit("1");
        reveal_strlit("2");
        reveal_strlit("3");
        reveal_strlit("4");
        reveal_strlit("5");
        reveal_strlit("6");
        reveal_strlit("7");
        reveal_strlit("8");
        reveal_strlit("9");
    }
    let text = if d == 0 {
        "0"
    } else if d == 1 {
        "1"
    } else if d == 2 {
        "2"
    } else if d == 3 {
        "3"
    } else if d == 4 {
        "4"
    } else if d == 5 {
        "5"
    } else if d == 6 {
        "6"
    } else if d == 7 {
        "7"
    } else if d == 8 {
        "8"
    } else {
        "9"
    };
    proof {
        assert(text@ =~= seq![digit_char(d as int)]);
    }
    text
}

/// Writes `number` in base ten.
pub fn number_text(number: usize) -> (text: String)
    ensures
        text@ == decimal_text(number as nat),
    decreases number,
{
    if number < 10 {
        String::from_str(digit_text(number))
    } else {
        let mut text = number_text(number / 10);
        text.append(digit_text(number % 10));
        text
    }
}

/// Writes `number` in base ten, in two places at least.
pub fn two_digit_number_text(number: usize) -> (text: String)
    ensures
        text@ == two_digit_text(number as nat),
{
    if number < 10 {
        let mut text = String::from_str(digit_text(0));
        text.append(digit_text(number));
        text
    } else {
        number_text(number)
    }
}

/// What `number_text` writes, `parse_number` reads: the text of a number
/// holds digits only and writes that number.
pub proof fn lemma_number_text_round_trip(number: nat)
    ensures
        decimal_text(number).len() > 0,
        forall|i: int|
            0 <= i < decimal_text(number).len() ==> is_digit(#[trigger] decimal_text(number)[i]),
        decimal_value(decimal_text(number)) == number,
        is_number(decimal_text(number)),
        number <= usize::MAX ==> number_of(decimal_text(number)) == Some(number as usize),
    decreases number,
{
    let text = decimal_text(number);
    if number >= 10 {
        lemma_number_text_round_trip(number / 10);
        assert(text.drop_last() =~= decimal_text(number / 10));
        assert(text.last() == digit_char((number % 10) as int));
        assert forall|i: int| 0 <= i < text.len() implies is_digit(#[trigger] text[i]) by {
            if i < text.len() - 1 {
                assert(text[i] == decimal_text(number / 10)[i]);
            }
        }
    } else {
        assert(text.last() == digit_char(number as int));
        assert(decimal_value(text.drop_last()) == 0);
    }
    assert(text.last() as int - '0' as int == number % 10);
    assert(is_digit(text[0]));
    assert(unsigned_part(text) == text);
}

/// A text of digits holds no pattern that begins with anything but a digit.
pub proof fn lemma_digits_hold_no_other_pattern(text: Seq<char>, pattern: Seq<char>)
    requires
        forall|i: int| 0 <= i < text.len() ==> is_digit(#[trigger] text[i]),
        pattern.len() > 0,
        !is_digit(pattern[0]),
    ensures
        !occurs(text, pattern),
{
    assert forall|at: int| !occurs_at(text, pattern, at) by {
        if occurs_at(text, pattern, at) {
            assert(text[at + 0] == pattern[0]);
            assert(is_digit(text[at]));
        }
    }
}

} // verus!
