//! Decimal notation: how numbers are written into names and messages, and how a process id
//! is read back.
use crate::text::{is_white, to_chars, trim, trim_keeps_trimmed};
use vstd::prelude::*;

verus! {

pub open spec fn digit_char(digit: nat) -> char {
    (digit + '0' as u32) as char
}

pub open spec fn is_digit(ch: char) -> bool {
    '0' <= ch && ch <= '9'
}

/// `number` in decimal notation, without leading zeros.
pub open spec fn decimal(number: nat) -> Seq<char>
    decreases number,
{
    if number < 10 {
        seq![digit_char(number)]
    } else {
        decimal(number / 10).push(digit_char(number % 10))
    }
}

/// `number` in decimal notation, with `-` before a negative one.
pub open spec fn signed_decimal(number: int) -> Seq<char> {
    if number < 0 {
        seq!['-'] + decimal((-number) as nat)
    } else {
        decimal(number as nat)
    }
}

/// The number that a row of digits stands for.
pub open spec fn digits_value(digits: Seq<char>) -> nat
    decreases digits.len(),
{
    if digits.len() == 0 {
        0
    } else {
        digits_value(digits.drop_last()) * 10 + (digits.last() as u32 - '0' as u32) as nat
    }
}

/// At least one character, and nothing but digits.
pub open spec fn is_digits(text: Seq<char>) -> bool {
    text.len() > 0 && forall|i: int| 0 <= i < text.len() ==> is_digit(#[trigger] text[i])
}

/// `text` without a leading `+`.
pub open spec fn without_plus(text: Seq<char>) -> Seq<char> {
    if text.len() > 0 && text.first() == '+' {
        text.drop_first()
    } else {
        text
    }
}

/// The number that `text` writes: digits behind an optional `+`, of a value that fits.
pub open spec fn parsed_u32(text: Seq<char>) -> Option<u32> {
    let digits = without_plus(text);
    if is_digits(digits) && digits_value(digits) <= u32::MAX {
        Some(digits_value(digits) as u32)
    } else {
        None
    }
}

pub fn to_decimal(number: u64) -> (text: String)
    ensures
        text@ == decimal(number as nat),
    decreases number,
{
    let mut text: String = if number < 10 {
        String::new()
    } else {
        to_decimal(number / 10)
    };
    let digit: u8 = (number % 10) as u8;
    text.push((48 + digit) as char);
    proof {
        if number < 10 {
            assert(text@ == seq![digit_char(number as nat)]);
        }
    }
    text
}

pub fn to_signed_decimal(number: i32) -> (text: String)
    ensures
        text@ == signed_decimal(number as int),
{
    if number < 0 {
        let mut text: String = String::new();
        text.push('-');
        let magnitude: i64 = -(number as i64);
        text.append(to_decimal(magnitude as u64).as_str());
        proof {
            assert(Seq::<char>::empty().push('-') == seq!['-']);
        }
        text
    } else {
        to_decimal(number as u64)
    }
}

proof fn lemma_value_grows(digits: Seq<char>, more: Seq<char>)
    requires
        is_digits(digits + more) || digits.len() == 0,
    ensures
        digits_value(digits) <= digits_value(digits + more),
    decreases more.len(),
{
    if more.len() == 0 {
        assert(digits + more == digits);
    } else if digits.len() > 0 {
        let shorter = more.drop_last();
        assert((digits + more).drop_last() == digits + shorter);
        assert forall|i: int| 0 <= i < (digits + shorter).len() implies is_digit(
            #[trigger] (digits + shorter)[i],
        ) by {
            assert((digits + shorter)[i] == (digits + more)[i]);
        }
        lemma_value_grows(digits, shorter);
    }
}

/// The number that `text` writes, where it writes one that fits.
pub fn parse_u32(text: &str) -> (number: Option<u32>)
    ensures
        number == parsed_u32(text@),
{
    let chars: Vec<char> = to_chars(text);
    let start: usize = if chars.len() > 0 && chars[0] == '+' {
        1
    } else {
        0
    };
    let ghost digits = without_plus(text@);
    proof {
        assert(digits == chars@.skip(start as int));
    }
    if start == chars.len() {
        return None;
    }
    let mut value: u64 = 0;
    let mut i: usize = start;
    while i < chars.len()
        invariant
            chars@ == text@,
            digits == chars@.skip(start as int),
            digits == without_plus(text@),
            digits.len() > 0,
            start <= i <= chars@.len(),
            forall|k: int| 0 <= k < i - start ==> is_digit(#[trigger] digits[k]),
            value == digits_value(digits.take(i - start)),
            value <= u32::MAX,
        decreases chars@.len() - i,
    {
        let ch: char = chars[i];
        proof {
            assert(digits[i - start] == ch);
        }
        if ch < '0' || ch > '9' {
            return None;
        }
        value = value * 10 + (ch as u64 - '0' as u64);
        proof {
            let longer = digits.take(i - start + 1);
            assert(longer.drop_last() == digits.take(i - start));
            assert(longer.last() == ch);
        }
        if value > 0xffff_ffff {
            proof {
                let front = digits.take(i - start + 1);
                let back = digits.skip(i - start + 1);
                assert(front + back == digits);
                if is_digits(digits) {
                    lemma_value_grows(front, back);
                }
            }
            return None;
        }
        i += 1;
    }
    proof {
        assert(digits.take(digits.len() as int) == digits);
    }
    Some(value as u32)
}

// ---------------------------------------------------------------------------------------
// Laws
// ---------------------------------------------------------------------------------------

/// Decimal notation consists of digits, and stands for the number it was made from.
pub proof fn decimal_is_read_back(number: nat)
    ensures
        is_digits(decimal(number)),
        digits_value(decimal(number)) == number,
    decreases number,
{
    if number < 10 {
        let text = decimal(number);
        assert(text.drop_last() == Seq::<char>::empty());
        assert(digits_value(text.drop_last()) == 0);
        assert(is_digit(text[0]));
    } else {
        decimal_is_read_back(number / 10);
        let front = decimal(number / 10);
        assert(decimal(number).drop_last() == front);
        assert forall|i: int| 0 <= i < decimal(number).len() implies is_digit(
            #[trigger] decimal(number)[i],
        ) by {
            if i < front.len() {
                assert(decimal(number)[i] == front[i]);
            }
        }
    }
}

/// A number written in decimal, with a line break behind it, is read back as that number.
pub proof fn written_number_is_read_back(number: u32)
    ensures
        parsed_u32(trim(decimal(number as nat).push('\n'))) == Some(number),
{
    let text = decimal(number as nat);
    let line = text.push('\n');
    decimal_is_read_back(number as nat);
    assert(is_digit(text[0]));
    assert(is_digit(text[text.len() - 1]));
    assert(crate::text::trim_start(line) == line) by {
        assert(line.first() == text[0]);
    }
    assert(line.drop_last() == text);
    assert(crate::text::trim_end(line) == crate::text::trim_end(text)) by {
        assert(is_white('\n'));
    }
    trim_keeps_trimmed(text);
    assert(crate::text::trim_start(text) == text);
    assert(trim(line) == text);
    assert(without_plus(text) == text);
}

/// A row of digits stands for ten times what the digits before the last stand for, and the last
/// one's own value more.
pub proof fn digits_have_place_value(digits: Seq<char>, digit: nat)
    requires
        digit < 10,
    ensures
        digits_value(Seq::empty()) == 0,
        digits_value(digits.push(('0' as u32 + digit) as char)) == 10 * digits_value(digits)
            + digit,
{
    let last = ('0' as u32 + digit) as char;
    assert(digits.push(last).drop_last() =~= digits);
}

/// Decimal notation is as short as can be: it begins with a zero for zero alone. A negative
/// number has its sign before its magnitude.
pub proof fn decimal_has_no_leading_zero(number: nat)
    ensures
        decimal(number).len() > 0,
        decimal(number)[0] == '0' <==> number == 0,
        signed_decimal(number as int) == decimal(number),
        number > 0 ==> signed_decimal(-number) == seq!['-'] + decimal(number),
    decreases number,
{
    if number >= 10 {
        decimal_has_no_leading_zero(number / 10);
        assert(decimal(number)[0] == decimal(number / 10)[0]);
    } else {
        assert(digit_char(number) as u32 == number + 48);
    }
}

/// A number is read from its decimal notation, with or without a `+` before it, where 32 bits
/// can hold it; one that they cannot hold is not.
pub proof fn number_is_read_where_it_fits(number: nat)
    ensures
        number <= u32::MAX ==> parsed_u32(decimal(number)) == Some(number as u32) && parsed_u32(
            seq!['+'] + decimal(number),
        ) == Some(number as u32),
        number > u32::MAX ==> parsed_u32(decimal(number)) is None && parsed_u32(
            seq!['+'] + decimal(number),
        ) is None,
{
    decimal_is_read_back(number);
    let text = decimal(number);
    assert(is_digit(text[0]));
    assert(without_plus(text) == text);
    assert((seq!['+'] + text).drop_first() =~= text);
}

/// No number is read where anything but digits stands behind an optional `+`, or nothing does.
pub proof fn nothing_else_is_read_as_a_number(text: Seq<char>, at: int)
    requires
        text.len() == 0 || text == seq!['+'] || {
            &&& 0 <= at < text.len()
            &&& !('0' as u32 <= text[at] as u32 <= '9' as u32)
            &&& at > 0 || text[0] != '+'
        },
    ensures
        parsed_u32(text) is None,
{
    if text.len() > 0 {
        let digits = without_plus(text);
        if text != seq!['+'] {
            let shift: int = if text[0] == '+' {
                1
            } else {
                0
            };
            assert(digits[at - shift] == text[at]);
            assert(!is_digit(digits[at - shift]));
        } else {
            assert(digits.len() == 0);
        }
    }
}

} // verus!
