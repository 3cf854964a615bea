//! Showing the result of a roll on a terminal.
//!
//! A result is shown on one line: the sum, the expression as it was typed,
//! the values of the dice and the modifier. The largest value of the die is
//! shown in green and a one in red; so is the sum where the roll is a
//! single largest value, or comes to one. The colours are `owo_colors`'.

use crate::realize::{Highlight, RealizedExpression};
use crate::text::{append_integer, push_char};
use owo_colors::OwoColorize;
use vstd::prelude::*;
use vstd::string::StringExecFns;

verus! {

/// What switches the terminal to bright green.
pub const GREEN: &'static str = "\x1b[92m";

/// What switches the terminal to bright red.
pub const RED: &'static str = "\x1b[91m";

/// What switches the terminal back to its own colour.
pub const RESET: &'static str = "\x1b[39m";

/// `OwoColorize::bright_green`, as `Display` writes it: `text` between the
/// codes that switch to bright green and back.
#[verifier::external_body]
fn green(text: &str) -> (painted: String)
    ensures
        painted@ == GREEN@ + text@ + RESET@,
{
    format!("{}", text.bright_green())
}

/// `OwoColorize::bright_red`, as `Display` writes it: `text` between the
/// codes that switch to bright red and back.
#[verifier::external_body]
fn red(text: &str) -> (painted: String)
    ensures
        painted@ == RED@ + text@ + RESET@,
{
    format!("{}", text.bright_red())
}

/// `text` in the colour that `highlight` asks for.
pub open spec fn tinted(highlight: Highlight, text: Seq<char>) -> Seq<char> {
    match highlight {
        Highlight::High => GREEN@ + text + RESET@,
        Highlight::Low => RED@ + text + RESET@,
        Highlight::Normal => text,
    }
}

/// `number` in decimal, with a blank in front if it is a single digit.
pub open spec fn padded(number: int) -> Seq<char> {
    if crate::text::integer_text(number).len() < 2 {
        seq![' '] + crate::text::integer_text(number)
    } else {
        crate::text::integer_text(number)
    }
}

/// How the sum of a roll is shown: high if the roll is a single largest
/// value, else low if the sum is one.
pub open spec fn sum_highlight(realized: crate::realize::Realized) -> Highlight {
    if realized.critical() {
        Highlight::High
    } else if realized.total() == 1 {
        Highlight::Low
    } else {
        Highlight::Normal
    }
}

/// The values of the dice, each in its colour, with commas between them.
pub open spec fn values_text(values: Seq<i32>, sides: i32) -> Seq<char>
    decreases values.len(),
{
    if values.len() == 0 {
        Seq::empty()
    } else if values.len() == 1 {
        tinted(crate::realize::highlight_of(values[0], sides), padded(values[0] as int))
    } else {
        values_text(values.drop_last(), sides) + seq![',', ' '] + tinted(
            crate::realize::highlight_of(values.last(), sides),
            padded(values.last() as int),
        )
    }
}

/// The values of the dice written as a sum, each in its colour, behind an
/// equals sign: the cell of a table that stands beside the sum.
pub open spec fn addends_text(values: Seq<i32>, sides: i32) -> Seq<char>
    decreases values.len(),
{
    if values.len() == 0 {
        Seq::empty()
    } else if values.len() == 1 {
        seq![' ', ' ', ' ', '=', ' '] + tinted(
            crate::realize::highlight_of(values[0], sides),
            crate::text::integer_text(values[0] as int),
        )
    } else {
        addends_text(values.drop_last(), sides) + seq![' ', '+', ' '] + tinted(
            crate::realize::highlight_of(values.last(), sides),
            crate::text::integer_text(values.last() as int),
        )
    }
}

/// The modifier as it is shown: not at all if it is zero, in brackets if it
/// is negative.
pub open spec fn modifier_text(modifier: int) -> Seq<char> {
    if modifier == 0 {
        Seq::empty()
    } else if modifier < 0 {
        seq![' ', '(', '-'] + crate::text::integer_text(-modifier) + seq![')']
    } else {
        seq![' ', ' ', ' ', '+'] + crate::text::integer_text(modifier)
    }
}

/// The line that shows a roll of the expression typed as `text`.
pub open spec fn shown(text: Seq<char>, realized: crate::realize::Realized) -> Seq<char> {
    tinted(sum_highlight(realized), padded(realized.total())) + seq![' ', ' ', ':', ':', ' ', ' ']
        + text + seq![' ', ' ', ':', ':', ' ', ' '] + values_text(realized.results, realized.sides)
        + modifier_text(realized.modifier as int)
}

/// Appends `plain` in the colour that `highlight` asks for.
fn append_painted(text: &mut String, plain: &str, highlight: Highlight)
    ensures
        final(text)@ == old(text)@ + tinted(highlight, plain@),
{
    match highlight {
        Highlight::High => {
            let painted = green(plain);
            text.append(painted.as_str());
        },
        Highlight::Low => {
            let painted = red(plain);
            text.append(painted.as_str());
        },
        Highlight::Normal => {
            text.append(plain);
        },
    }
}

/// Appends `number`, with a blank in front if it is a single digit, in the
/// colour that `highlight` asks for.
fn append_tinted(text: &mut String, number: i32, highlight: Highlight)
    ensures
        final(text)@ == old(text)@ + tinted(highlight, padded(number as int)),
{
    let mut digits = String::new();
    append_integer(&mut digits, number);
    assert(digits@ =~= crate::text::integer_text(number as int));
    let mut plain = String::new();
    if 0 <= number && number < 10 {
        push_char(&mut plain, ' ');
    }
    plain.append(digits.as_str());
    proof {
        lemma_single_digit(number as int);
        assert(plain@ =~= padded(number as int));
    }
    append_painted(text, plain.as_str(), highlight);
}

/// A number is written with a single character just if it lies between
/// zero and nine.
proof fn lemma_single_digit(number: int)
    ensures
        (crate::text::integer_text(number).len() < 2) == (0 <= number < 10),
{
    if number < 0 {
        lemma_natural_length((-number) as nat);
    } else {
        lemma_natural_length(number as nat);
        if number >= 10 {
            lemma_natural_length((number / 10) as nat);
        }
    }
}

/// A natural number is written with at least one character.
proof fn lemma_natural_length(number: nat)
    ensures
        crate::text::natural_text(number).len() >= 1,
    decreases number,
{
    if number >= 10 {
        lemma_natural_length(number / 10);
    }
}

/// Appends a comma, a blank and `value` in the colour that `highlight` asks
/// for.
pub fn write_with_highlight(text: &mut String, value: i32, highlight: Highlight)
    ensures
        final(text)@ == old(text)@ + seq![',', ' '] + tinted(highlight, padded(value as int)),
{
    push_char(text, ',');
    push_char(text, ' ');
    assert(old(text)@.push(',').push(' ') =~= old(text)@ + seq![',', ' ']);
    append_tinted(text, value, highlight);
}

/// The two cells that show a roll in a row of a table: the sum, and the
/// values of the dice written as a sum. The sum has to fit its type.
pub fn row_cells(result: &RealizedExpression) -> (cells: (String, String))
    requires
        i32::MIN <= result@.total() <= i32::MAX,
    ensures
        cells.0@ == crate::text::integer_text(result@.total()),
        cells.1@ == addends_text(result@.results, result@.sides),
{
    let mut sum = String::new();
    append_integer(&mut sum, result.sum());
    let ghost values = result@.results;
    let ghost sides = result@.sides;
    let results = result.results();
    let mut addends = String::new();
    let mut at: usize = 0;
    assert(values.take(0) =~= Seq::<i32>::empty());
    while at < results.len()
        invariant
            at <= results.len() == values.len(),
            forall|i: int|
                0 <= i < results.len() ==> #[trigger] results[i] == (
                    crate::realize::highlight_of(values[i], sides),
                    values[i],
                ),
            addends@ == addends_text(values.take(at as int), sides),
        decreases results.len() - at,
    {
        let (highlight, value) = results[at];
        let ghost next = values.take(at + 1);
        let ghost before = addends@;
        proof {
            assert(next.drop_last() =~= values.take(at as int));
            assert(next.last() == values[at as int]);
            assert(next[0] == values[0]);
        }
        if at == 0 {
            addends.append("   = ");
        } else {
            addends.append(" + ");
        }
        let mut digits = String::new();
        append_integer(&mut digits, value);
        append_painted(&mut addends, digits.as_str(), highlight);
        proof {
            reveal_strlit("   = ");
            reveal_strlit(" + ");
            assert("   = "@ =~= seq![' ', ' ', ' ', '=', ' ']);
            assert(" + "@ =~= seq![' ', '+', ' ']);
            assert(digits@ =~= crate::text::integer_text(value as int));
            assert(addends@ =~= addends_text(next, sides));
        }
        at = at + 1;
    }
    assert(values.take(at as int) =~= values);
    (sum, addends)
}

/// A roll together with the expression as it was typed, to be shown on one
/// line.
pub struct ResultFormatter<'a> {
    text: &'a str,
    result: &'a RealizedExpression,
}

impl<'a> ResultFormatter<'a> {
    /// The expression as it was typed.
    pub closed spec fn text(&self) -> Seq<char> {
        self.text@
    }

    /// The roll.
    pub closed spec fn result(&self) -> crate::realize::Realized {
        self.result@
    }

    /// A formatter for `result`, a roll of the expression typed as `text`.
    pub fn new(text: &'a str, result: &'a RealizedExpression) -> (formatter: Self)
        ensures
            formatter.text() == text@,
            formatter.result() == result@,
    {
        ResultFormatter { text, result }
    }

    /// The line that shows the roll. The sum has to fit its type.
    pub fn render(&self) -> (line: String)
        requires
            i32::MIN <= self.result().total() <= i32::MAX,
        ensures
            line@ == shown(self.text(), self.result()),
    {
        let sum: i32 = self.result.sum();
        let highlight = if self.result.is_critical() {
            Highlight::High
        } else if sum == 1 {
            Highlight::Low
        } else {
            Highlight::Normal
        };
        let mut line = String::new();
        append_tinted(&mut line, sum, highlight);
        line.append("  ::  ");
        line.append(self.text);
        line.append("  ::  ");
        let ghost head = line@;
        let ghost values = self.result@.results;
        let ghost sides = self.result@.sides;
        let results = self.result.results();
        let mut at: usize = 0;
        assert(head + values_text(values.take(0), sides) =~= head);
        while at < results.len()
            invariant
                at <= results.len() == values.len(),
                forall|i: int|
                    0 <= i < results.len() ==> #[trigger] results[i] == (
                        crate::realize::highlight_of(values[i], sides),
                        values[i],
                    ),
                line@ == head + values_text(values.take(at as int), sides),
            decreases results.len() - at,
        {
            let (highlight, value) = results[at];
            let ghost next = values.take(at + 1);
            proof {
                assert(next.drop_last() =~= values.take(at as int));
                assert(next.last() == values[at as int]);
                assert(next[0] == values[0]);
            }
            if at == 0 {
                append_tinted(&mut line, value, highlight);
                assert(line@ =~= head + values_text(next, sides));
            } else {
                let ghost done = line@;
                write_with_highlight(&mut line, value, highlight);
                assert(line@ =~= head + values_text(next, sides));
            }
            at = at + 1;
        }
        assert(values.take(at as int) =~= values);
        let modifier: i32 = self.result.modifier();
        let ghost body = line@;
        if modifier < 0 {
            line.append(" (-");
            crate::text::append_natural(&mut line, (-(modifier as i64)) as u64);
            push_char(&mut line, ')');
            proof {
                reveal_strlit(" (-");
                assert(" (-"@ =~= seq![' ', '(', '-']);
                assert(line@ =~= body + modifier_text(modifier as int));
            }
        } else if modifier > 0 {
            line.append("   +");
            append_integer(&mut line, modifier);
            proof {
                reveal_strlit("   +");
                assert("   +"@ =~= seq![' ', ' ', ' ', '+']);
                assert(line@ =~= body + modifier_text(modifier as int));
            }
        } else {
            assert(line@ =~= body + modifier_text(modifier as int));
        }
        proof {
            reveal_strlit("  ::  ");
            assert("  ::  "@ =~= seq![' ', ' ', ':', ':', ' ', ' ']);
            assert(line@ =~= shown(self.text(), self.result()));
        }
        line
    }
}

} // verus!
