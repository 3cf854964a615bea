//! Writing numbers as text.

use vstd::prelude::*;

verus! {

/// The character that stands for the digit `digit`.
pub open spec fn digit_char(digit: int) -> char {
    ('0' as int + digit) as char
}

/// The natural number `number` in decimal, without leading zeros.
pub open spec fn natural_text(number: nat) -> Seq<char>
    decreases number,
{
    if number < 10 {
        seq![digit_char(number as int)]
    } else {
        natural_text(number / 10).push(digit_char((number % 10) as int))
    }
}

/// The integer `number` in decimal, with a minus sign if it is negative.
pub open spec fn integer_text(number: int) -> Seq<char> {
    if number < 0 {
        seq!['-'] + natural_text((-number) as nat)
    } else {
        natural_text(number as nat)
    }
}

/// `String::push`: appends the character `c` to the end of `text`.
#[verifier::external_body]
pub(crate) fn push_char(text: &mut String, c: char)
    ensures
        final(text)@ == old(text)@.push(c),
{
    text.push(c)
}

/// Appends the natural number `number` in decimal.
pub fn append_natural(text: &mut String, number: u64)
    ensures
        final(text)@ == old(text)@ + natural_text(number as nat),
    decreases number,
{
    if number >= 10 {
        append_natural(text, number / 10);
    }
    let digit: u8 = (number % 10) as u8;
    push_char(text, (48u8 + digit) as char);
    proof {
        assert(old(text)@ + natural_text(number as nat) =~= if number >= 10 {
            (old(text)@ + natural_text((number / 10) as nat)).push(digit_char((number % 10) as int))
        } else {
            old(text)@.push(digit_char(number as int))
        });
    }
}

/// Appends the integer `number` in decimal.
pub fn append_integer(text: &mut String, number: i32)
    ensures
        final(text)@ == old(text)@ + integer_text(number as int),
{
    if number < 0 {
        push_char(text, '-');
        append_natural(text, (-(number as i64)) as u64);
        proof {
            assert(old(text)@.push('-') + natural_text((-number) as nat) =~= old(text)@
                + integer_text(number as int));
        }
    } else {
        append_natural(text, number as u64);
    }
}

} // verus!
