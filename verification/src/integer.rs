//! Decimal integer literals: what a piece of text denotes, and how it is read.
//!
//! A literal is an optional sign followed by ASCII decimal digits. Reading
//! goes from left to right and stops at the first thing that is wrong, so a
//! number that leaves the range is reported as an overflow even when a stray
//! character follows further on.

use vstd::prelude::*;

verus! {

/// Why a piece of text could not be read as an integer.
#[derive(Copy, Clone, Debug, PartialEq, Eq, Hash, Structural)]
pub enum IntegerError {
    /// The text is empty.
    Empty,
    /// The text is not an optional sign followed by decimal digits.
    InvalidDigit,
    /// The number is larger than the target type can hold.
    PosOverflow,
    /// The number is smaller than the target type can hold.
    NegOverflow,
}

/// Whether `c` is one of the ten ASCII decimal digits.
pub open spec fn is_digit(c: char) -> bool {
    '0' <= c && c <= '9'
}

/// The number that the digit `c` stands for.
pub open spec fn digit_value(c: char) -> int {
    c as int - '0' as int
}

/// Whether every character of `text` is a decimal digit.
pub open spec fn all_digits(text: Seq<char>) -> bool {
    forall|i: int| 0 <= i < text.len() ==> is_digit(#[trigger] text[i])
}

/// The end of the longest run of digits in `text` that starts at `from`:
/// `from` itself when no digit stands there.
pub open spec fn digits_end(text: Seq<char>, from: int) -> int
    decreases text.len() - from,
{
    if 0 <= from < text.len() && is_digit(text[from]) {
        digits_end(text, from + 1)
    } else {
        from
    }
}

/// The number that `text`, a run of digits, denotes in base ten. The empty
/// run denotes zero.
pub open spec fn decimal(text: Seq<char>) -> nat
    decreases text.len(),
{
    if text.len() == 0 {
        0
    } else {
        (decimal(text.drop_last()) * 10 + digit_value(text.last())) as nat
    }
}

/// What reading `digits` as a number of magnitude at most `limit` gives.
/// The digits in front decide: if they already exceed the limit the result
/// is `overflow`, if something other than a digit follows them it is
/// `InvalidDigit`.
pub open spec fn magnitude(digits: Seq<char>, limit: int, overflow: IntegerError) -> Result<
    int,
    IntegerError,
> {
    let lead = digits.take(digits_end(digits, 0));
    if decimal(lead) > limit {
        Err(overflow)
    } else if lead.len() < digits.len() {
        Err(IntegerError::InvalidDigit)
    } else {
        Ok(decimal(lead) as int)
    }
}

/// What `text` denotes as a signed 32-bit integer.
pub open spec fn signed(text: Seq<char>) -> Result<int, IntegerError> {
    if text.len() == 0 {
        Err(IntegerError::Empty)
    } else if text.len() == 1 && (text[0] == '+' || text[0] == '-') {
        Err(IntegerError::InvalidDigit)
    } else if text[0] == '-' {
        match magnitude(text.skip(1), -(i32::MIN as int), IntegerError::NegOverflow) {
            Ok(value) => Ok(-value),
            Err(error) => Err(error),
        }
    } else if text[0] == '+' {
        magnitude(text.skip(1), i32::MAX as int, IntegerError::PosOverflow)
    } else {
        magnitude(text, i32::MAX as int, IntegerError::PosOverflow)
    }
}

/// What `text` denotes as an unsigned machine-sized integer. A minus sign
/// is no part of such a literal.
pub open spec fn unsigned(text: Seq<char>) -> Result<int, IntegerError> {
    if text.len() == 0 {
        Err(IntegerError::Empty)
    } else if text.len() == 1 && (text[0] == '+' || text[0] == '-') {
        Err(IntegerError::InvalidDigit)
    } else if text[0] == '+' {
        magnitude(text.skip(1), usize::MAX as int, IntegerError::PosOverflow)
    } else {
        magnitude(text, usize::MAX as int, IntegerError::PosOverflow)
    }
}

/// A run of digits ends where `digits_end` says: everything before is a
/// digit, and no digit stands at the end itself.
pub proof fn lemma_digits_end(text: Seq<char>, from: int)
    requires
        0 <= from <= text.len(),
    ensures
        from <= digits_end(text, from) <= text.len(),
        forall|i: int| from <= i < digits_end(text, from) ==> is_digit(#[trigger] text[i]),
        digits_end(text, from) < text.len() ==> !is_digit(text[digits_end(text, from)]),
    decreases text.len() - from,
{
    if from < text.len() && is_digit(text[from]) {
        lemma_digits_end(text, from + 1);
    }
}

/// A position that is reached over digits alone and holds no digit is the
/// end of the run.
pub proof fn lemma_digits_end_is(text: Seq<char>, from: int, end: int)
    requires
        0 <= from <= end <= text.len(),
        forall|i: int| from <= i < end ==> is_digit(#[trigger] text[i]),
        end < text.len() ==> !is_digit(text[end]),
    ensures
        digits_end(text, from) == end,
    decreases end - from,
{
    if from < end {
        lemma_digits_end_is(text, from + 1, end);
    }
}

/// Appending a digit multiplies by ten and adds the digit.
pub proof fn lemma_decimal_push(text: Seq<char>, c: char)
    requires
        is_digit(c),
    ensures
        decimal(text.push(c)) == decimal(text) * 10 + digit_value(c),
{
    assert(text.push(c).drop_last() =~= text);
}

/// A longer run of digits never denotes a smaller number.
pub proof fn lemma_decimal_grows(text: Seq<char>, shorter: int)
    requires
        0 <= shorter <= text.len(),
        all_digits(text),
    ensures
        decimal(text.take(shorter)) <= decimal(text),
    decreases text.len() - shorter,
{
    if shorter < text.len() {
        lemma_decimal_grows(text, shorter + 1);
        assert(text.take(shorter + 1).drop_last() =~= text.take(shorter));
    } else {
        assert(text.take(shorter) =~= text);
    }
}

/// Finds the end of the run of digits that starts at `from`.
pub fn scan_digits(chars: &Vec<char>, from: usize) -> (end: usize)
    requires
        from <= chars.len(),
    ensures
        end == digits_end(chars@, from as int),
        from <= end <= chars.len(),
{
    let mut end: usize = from;
    while end < chars.len() && is_digit_char(chars[end])
        invariant
            from <= end <= chars.len(),
            digits_end(chars@, from as int) == digits_end(chars@, end as int),
        decreases chars.len() - end,
    {
        end = end + 1;
    }
    end
}

/// Reads `chars[from..to]` as a number of magnitude at most `limit`.
fn read_magnitude(
    chars: &Vec<char>,
    from: usize,
    to: usize,
    limit: u64,
    overflow: IntegerError,
) -> (value: Result<u64, IntegerError>)
    requires
        from <= to <= chars.len(),
    ensures
        match value {
            Ok(number) => magnitude(chars@.subrange(from as int, to as int), limit as int, overflow)
                == Ok::<int, IntegerError>(number as int),
            Err(error) => magnitude(chars@.subrange(from as int, to as int), limit as int, overflow)
                == Err::<int, IntegerError>(error),
        },
{
    let ghost digits = chars@.subrange(from as int, to as int);
    let mut total: u64 = 0;
    let mut at: usize = from;
    while at < to && is_digit_char(chars[at])
        invariant
            from <= at <= to <= chars.len(),
            digits == chars@.subrange(from as int, to as int),
            forall|i: int| 0 <= i < at - from ==> is_digit(#[trigger] digits[i]),
            total == decimal(digits.take(at - from)),
            total <= limit,
        decreases to - at,
    {
        let digit: u64 = digit_of(chars[at]);
        let ghost seen = digits.take(at - from);
        proof {
            assert(digits.take(at - from + 1) =~= seen.push(chars@[at as int]));
            lemma_decimal_push(seen, chars@[at as int]);
        }
        let next: u128 = (total as u128) * 10 + (digit as u128);
        if next > limit as u128 {
            proof {
                // the digits read so far already exceed the limit
                let end = digits_end(digits, 0);
                lemma_digits_end(digits, 0);
                assert(end >= at - from + 1) by {
                    if end < at - from + 1 {
                        assert(is_digit(digits[end]));
                    }
                }
                let lead = digits.take(end);
                assert(all_digits(lead));
                assert(lead.take(at - from + 1) =~= digits.take(at - from + 1));
                lemma_decimal_grows(lead, at - from + 1);
            }
            return Err(overflow);
        }
        total = next as u64;
        at = at + 1;
    }
    proof {
        lemma_digits_end_is(digits, 0, at - from);
    }
    if at < to {
        Err(IntegerError::InvalidDigit)
    } else {
        Ok(total)
    }
}

/// Reads `chars[from..to]` as a signed 32-bit integer.
pub fn read_signed(chars: &Vec<char>, from: usize, to: usize) -> (value: Result<i32, IntegerError>)
    requires
        from <= to <= chars.len(),
    ensures
        match value {
            Ok(number) => signed(chars@.subrange(from as int, to as int)) == Ok::<
                int,
                IntegerError,
            >(number as int),
            Err(error) => signed(chars@.subrange(from as int, to as int)) == Err::<
                int,
                IntegerError,
            >(error),
        },
{
    let ghost text = chars@.subrange(from as int, to as int);
    if from == to {
        return Err(IntegerError::Empty);
    }
    let first: char = chars[from];
    assert(first == text[0]);
    if to - from == 1 && (first == '+' || first == '-') {
        return Err(IntegerError::InvalidDigit);
    }
    if first == '-' {
        assert(text.skip(1) =~= chars@.subrange(from + 1, to as int));
        match read_magnitude(chars, from + 1, to, 2147483648, IntegerError::NegOverflow) {
            Ok(number) => {
                if number == 2147483648 {
                    Ok(i32::MIN)
                } else {
                    Ok(-(number as i32))
                }
            },
            Err(error) => Err(error),
        }
    } else {
        let start: usize = if first == '+' {
            from + 1
        } else {
            from
        };
        assert(first == '+' ==> text.skip(1) =~= chars@.subrange(from + 1, to as int));
        match read_magnitude(chars, start, to, 2147483647, IntegerError::PosOverflow) {
            Ok(number) => Ok(number as i32),
            Err(error) => Err(error),
        }
    }
}

/// Reads `chars[from..to]` as an unsigned machine-sized integer.
pub fn read_unsigned(chars: &Vec<char>, from: usize, to: usize) -> (value: Result<
    usize,
    IntegerError,
>)
    requires
        from <= to <= chars.len(),
    ensures
        match value {
            Ok(number) => unsigned(chars@.subrange(from as int, to as int)) == Ok::<
                int,
                IntegerError,
            >(number as int),
            Err(error) => unsigned(chars@.subrange(from as int, to as int)) == Err::<
                int,
                IntegerError,
            >(error),
        },
{
    let ghost text = chars@.subrange(from as int, to as int);
    if from == to {
        return Err(IntegerError::Empty);
    }
    let first: char = chars[from];
    assert(first == text[0]);
    if to - from == 1 && (first == '+' || first == '-') {
        return Err(IntegerError::InvalidDigit);
    }
    let start: usize = if first == '+' {
        from + 1
    } else {
        from
    };
    assert(first == '+' ==> text.skip(1) =~= chars@.subrange(from + 1, to as int));
    match read_magnitude(chars, start, to, usize::MAX as u64, IntegerError::PosOverflow) {
        Ok(number) => Ok(number as usize),
        Err(error) => Err(error),
    }
}

/// The characters of `text`, one by one.
pub fn characters(text: &str) -> (chars: Vec<char>)
    ensures
        chars@ == text@,
{
    let mut chars: Vec<char> = Vec::new();
    for c in it: text.chars()
        invariant
            chars@ == it.seq().take(it.index() as int),
            it.seq() == text@,
    {
        chars.push(c);
    }
    chars
}

/// Reads `text` as a signed 32-bit integer: an optional sign, then digits.
pub fn parse_i32(text: &str) -> (value: Result<i32, IntegerError>)
    ensures
        match value {
            Ok(number) => signed(text@) == Ok::<int, IntegerError>(number as int),
            Err(error) => signed(text@) == Err::<int, IntegerError>(error),
        },
{
    let chars = characters(text);
    assert(chars@.subrange(0, chars@.len() as int) =~= text@);
    read_signed(&chars, 0, chars.len())
}

/// Reads `text` as an unsigned machine-sized integer: an optional plus sign,
/// then digits.
pub fn parse_usize(text: &str) -> (value: Result<usize, IntegerError>)
    ensures
        match value {
            Ok(number) => unsigned(text@) == Ok::<int, IntegerError>(number as int),
            Err(error) => unsigned(text@) == Err::<int, IntegerError>(error),
        },
{
    let chars = characters(text);
    assert(chars@.subrange(0, chars@.len() as int) =~= text@);
    read_unsigned(&chars, 0, chars.len())
}

/// Whether `c` is a decimal digit.
pub fn is_digit_char(c: char) -> (digit: bool)
    ensures
        digit == is_digit(c),
{
    '0' <= c && c <= '9'
}

/// The number that the digit `c` stands for.
fn digit_of(c: char) -> (value: u64)
    requires
        is_digit(c),
    ensures
        value == digit_value(c),
{
    (c as u64) - ('0' as u64)
}

} // verus!
