//! Unsigned decimal numbers, as `u32::from_str` reads them: an optional `+`,
//! then one or more ASCII digits, with a value that fits in 32 bits.

use vstd::prelude::*;

verus! {

/// Whether a character is one of `0` to `9`.
pub open spec fn is_digit(c: char) -> bool {
    '0' <= c <= '9'
}

/// The value of a digit character.
pub open spec fn digit_value(c: char) -> nat {
    (c as int - '0' as int) as nat
}

/// Whether a text holds digits only.
pub open spec fn all_digits(text: Seq<char>) -> bool {
    forall|i: int| 0 <= i < text.len() ==> is_digit(#[trigger] text[i])
}

/// The number that a run of digits denotes in base ten.
pub open spec fn decimal_value(digits: Seq<char>) -> nat
    decreases digits.len(),
{
    if digits.len() == 0 {
        0
    } else {
        10 * decimal_value(digits.drop_last()) + digit_value(digits.last())
    }
}

/// The digits of a number text: the text without its leading `+`, if any.
pub open spec fn unsigned_digits(text: Seq<char>) -> Seq<char> {
    if text.len() > 0 && text[0] == '+' {
        text.drop_first()
    } else {
        text
    }
}

/// The 32-bit number that a text denotes, if it denotes one.
pub open spec fn parse_u32(text: Seq<char>) -> Option<u32> {
    let digits = unsigned_digits(text);
    if digits.len() > 0 && all_digits(digits) && decimal_value(digits) <= u32::MAX {
        Some(decimal_value(digits) as u32)
    } else {
        None
    }
}

/// A run of digits denotes at least as much as any of its prefixes.
pub proof fn decimal_value_grows(digits: Seq<char>, n: int)
    requires
        0 <= n <= digits.len(),
    ensures
        decimal_value(digits.take(n)) <= decimal_value(digits),
    decreases digits.len(),
{
    if n == digits.len() {
        assert(digits.take(n) =~= digits);
    } else {
        decimal_value_grows(digits.drop_last(), n);
        assert(digits.drop_last().take(n) =~= digits.take(n));
    }
}

/// Reads a 32-bit number from its decimal text.
pub fn read_u32(text: &Vec<char>) -> (number: Option<u32>)
    ensures
        number == parse_u32(text@),
{
    let mut at: usize = 0;
    if at < text.len() && text[at] == '+' {
        at = at + 1;
    }
    let ghost digits = text@.skip(at as int);
    assert(digits =~= unsigned_digits(text@));
    if at == text.len() {
        return None;
    }
    let start: usize = at;
    let mut value: u64 = 0;
    while at < text.len()
        invariant
            start <= at <= text.len(),
            digits == text@.skip(start as int),
            digits == unsigned_digits(text@),
            all_digits(digits.take(at - start)),
            value == decimal_value(digits.take(at - start)),
            value <= u32::MAX,
        decreases text.len() - at,
    {
        let c: char = text[at];
        let ghost seen = digits.take(at - start + 1);
        assert(seen.drop_last() =~= digits.take(at - start));
        assert(seen.last() == c);
        if !(c >= '0' && c <= '9') {
            assert(!is_digit(digits[at - start]));
            return None;
        }
        let digit: u64 = (c as u32 - '0' as u32) as u64;
        value = 10 * value + digit;
        if value > u32::MAX as u64 {
            proof {
                decimal_value_grows(digits, at - start + 1);
            }
            return None;
        }
        at = at + 1;
    }
    assert(digits.take(at - start) =~= digits);
    Some(value as u32)
}

} // verus!
