//! Dice expressions and the notation they are written in.
//!
//! An expression's text starts with a dice term: an optional advantage
//! marker, an optional count of dice with its `d`, an optional bare `d`,
//! and the number of sides. Anywhere in the text there may be a flat
//! modifier (`+2`), a reroll token (`r`, `r2`) and an explode token (`!`,
//! `!5`). `2d6r!5+2` rolls two six-sided dice, rolls ones again, rolls an
//! extra die for every five or six, and adds two.
//!
//! Numbers are written with the ten ASCII digits and no others. A digit of
//! another script is a character like any other: it ends the number before
//! it, and a token that it follows has no value of its own.

use crate::error::{Error, Failure};
use crate::integer::{characters, read_signed, scan_digits};
use crate::token::{ExplodeTokenExtractor, RerollTokenExtractor, Token, TokenExtractor};
use vstd::prelude::*;
use vstd::string::{StrSliceExecFns, StringExecFns};

verus! {

/// Whether the first die of a roll is rolled twice, and which of the two
/// values is kept.
#[derive(Copy, Clone, Debug, PartialEq, Eq, Hash, Structural)]
pub enum Advantage {
    /// Keep the larger of two values.
    Advantage,
    /// Keep the smaller of two values.
    Disadvantage,
    /// Roll once.
    Normal,
}

/// The same choice under the name of the strategy that it selects.
pub type StrategyModifier = Advantage;

impl Default for Advantage {
    fn default() -> (advantage: Self)
        ensures
            advantage == Advantage::Normal,
    {
        Advantage::Normal
    }
}

/// A reroll threshold: values at or below it are rolled again.
#[derive(Copy, Clone, Debug, PartialEq, Eq, Hash, Structural)]
pub struct Reroll(pub i32);

impl Reroll {
    /// Whether `value` is rolled again.
    pub fn should_reroll(self, value: i32) -> (again: bool)
        ensures
            again == (self.0 >= value),
    {
        self.0 >= value
    }
}

/// An explode threshold: values at or above it earn one more roll.
#[derive(Copy, Clone, Debug, PartialEq, Eq, Hash, Structural)]
pub struct Explode(pub i32);

impl Explode {
    /// Whether `value` earns one more roll.
    pub fn should_explode(self, value: i32) -> (more: bool)
        ensures
            more == (value >= self.0),
    {
        value >= self.0
    }
}

/// A dice expression: how many dice of how many sides, and what is done
/// with the values they show.
#[derive(Clone, Debug, PartialEq, Eq, Hash, Structural)]
pub struct Expression {
    /// The number of dice.
    pub count: i32,
    /// The number of sides of each die, which is the largest value it shows.
    pub max: i32,
    /// What is added to the sum of the dice.
    pub modifier: i32,
    /// Whether the first die is rolled twice.
    pub advantage: Advantage,
    /// If present, the values that are rolled again.
    pub reroll: Option<Reroll>,
    /// If present, the values that earn one more roll.
    pub explode: Option<Explode>,
}

impl Default for Expression {
    fn default() -> (expression: Self)
        ensures
            expression == (Expression {
                count: 0,
                max: 0,
                modifier: 0,
                advantage: Advantage::Normal,
                reroll: None,
                explode: None,
            }),
    {
        Expression {
            count: 0,
            max: 0,
            modifier: 0,
            advantage: Advantage::Normal,
            reroll: None,
            explode: None,
        }
    }
}

impl Expression {
    /// Whether this expression describes a roll: at least one die, and a
    /// number of sides other than zero.
    pub open spec fn is_valid(&self) -> bool {
        self.count >= 1 && self.max != 0
    }

    /// Whether `value` is rolled again.
    pub open spec fn rerolls(&self, value: i32) -> bool {
        self.reroll matches Some(threshold) && threshold.0 >= value
    }

    /// Whether `value` earns one more roll.
    pub open spec fn explodes(&self, value: i32) -> bool {
        self.explode matches Some(threshold) && value >= threshold.0
    }

    /// Twice the average of a roll, as an exact integer: for each die the
    /// sum of its smallest and largest value, and the modifier twice.
    pub open spec fn doubled_average(&self) -> int {
        (1 + self.max) * self.count + self.modifier * 2
    }

    /// Whether `value` is rolled again.
    pub fn reroll(&self, value: i32) -> (again: bool)
        ensures
            again == self.rerolls(value),
    {
        match self.reroll {
            Some(threshold) => threshold.should_reroll(value),
            None => false,
        }
    }

    /// Whether `value` earns one more roll.
    pub fn explode(&self, value: i32) -> (more: bool)
        ensures
            more == self.explodes(value),
    {
        match self.explode {
            Some(threshold) => threshold.should_explode(value),
            None => false,
        }
    }

    /// Twice the average result of this expression, which is a whole
    /// number. Rerolls and explosions are left out of account.
    pub fn twice_average_result(&self) -> (twice: i64)
        ensures
            twice == self.doubled_average(),
    {
        let per_die: i64 = 1 + self.max as i64;
        let count: i64 = self.count as i64;
        let modifier: i64 = self.modifier as i64;
        assert(-0x8000_0000 * 0x8000_0000 <= per_die * count <= 0x8000_0000 * 0x8000_0000)
            by (nonlinear_arith)
            requires
                -0x8000_0000 <= per_die <= 0x8000_0000,
                -0x8000_0000 <= count <= 0x8000_0000,
        ;
        per_die * count + modifier * 2
    }
}

/// The dice term at the start of a text, as the texts of its parts.
pub struct BoundedTerm {
    /// What the advantage marker says.
    pub advantage: Advantage,
    /// The digits of the count of dice, if it is given.
    pub count: Option<Seq<char>>,
    /// The digits of the number of sides.
    pub sides: Seq<char>,
}

/// What an advantage marker at the start of `text` says; `Normal` if there
/// is none.
pub open spec fn marked_advantage(text: Seq<char>) -> Advantage {
    if text.len() > 0 && (text[0] == 'A' || text[0] == 'a') {
        Advantage::Advantage
    } else if text.len() > 0 && (text[0] == 'S' || text[0] == 's') {
        Advantage::Disadvantage
    } else {
        Advantage::Normal
    }
}

/// Whether the die marker `d` or `D` stands at position `at` of `text`.
pub open spec fn is_die(text: Seq<char>, at: int) -> bool {
    0 <= at < text.len() && (text[at] == 'D' || text[at] == 'd')
}

/// The dice term that `text` starts with, if it starts with one.
///
/// Behind the advantage marker, digits that are followed by a die marker
/// are the count, provided that the sides follow: directly, or behind one
/// more die marker. Otherwise digits in front are the sides themselves, and
/// without digits in front the sides may stand behind a bare die marker.
/// Each run of digits is taken as far as it goes.
pub open spec fn bounded_term(text: Seq<char>) -> Option<BoundedTerm> {
    let advantage = marked_advantage(text);
    let start: int = if advantage == Advantage::Normal {
        0
    } else {
        1
    };
    let lead = crate::integer::digits_end(text, start);
    let counted: int = if is_die(text, lead + 1) {
        lead + 2
    } else {
        lead + 1
    };
    let bare: int = if is_die(text, start) {
        start + 1
    } else {
        start
    };
    if lead > start && is_die(text, lead) && crate::integer::digits_end(text, counted) > counted {
        Some(
            BoundedTerm {
                advantage,
                count: Some(text.subrange(start, lead)),
                sides: text.subrange(counted, crate::integer::digits_end(text, counted)),
            },
        )
    } else if lead > start {
        Some(BoundedTerm { advantage, count: None, sides: text.subrange(start, lead) })
    } else if crate::integer::digits_end(text, bare) > bare {
        Some(
            BoundedTerm {
                advantage,
                count: None,
                sides: text.subrange(bare, crate::integer::digits_end(text, bare)),
            },
        )
    } else {
        None
    }
}

/// The number that `text` denotes, or the failure to report if it denotes
/// none.
pub open spec fn number(text: Seq<char>) -> Result<i32, Failure> {
    match crate::integer::signed(text) {
        Ok(value) => Ok(value as i32),
        Err(cause) => Err(Failure::BadInteger(text, cause)),
    }
}

/// The threshold that a token gives: none without a token, `default` for a
/// token without a value, else the number that the value denotes.
pub open spec fn threshold_of(token: Option<Option<Seq<char>>>, default: i32) -> Result<
    Option<i32>,
    Failure,
> {
    match token {
        None => Ok(None),
        Some(None) => Ok(Some(default)),
        Some(Some(text)) => match number(text) {
            Ok(value) => Ok(Some(value)),
            Err(failure) => Err(failure),
        },
    }
}

/// The expression that `text` denotes, or why it denotes none.
///
/// The parts are read in a fixed order, and the first that fails decides
/// the failure: the dice term, its count, its sides, the modifier, the
/// reroll threshold, the explode threshold. A count that is not written is
/// one, a reroll token without a value rerolls ones, and an explode token
/// without a value explodes on the largest value of the die.
pub open spec fn parsed(text: Seq<char>) -> Result<Expression, Failure> {
    match bounded_term(text) {
        None => Err(Failure::BadExpression(text)),
        Some(term) => match counted(term) {
            Err(failure) => Err(failure),
            Ok(count) => match number(term.sides) {
                Err(failure) => Err(failure),
                Ok(max) => match modified(text) {
                    Err(failure) => Err(failure),
                    Ok(modifier) => match threshold_of(Token::Reroll.threshold(text), 1) {
                        Err(failure) => Err(failure),
                        Ok(reroll) => match threshold_of(Token::Explode.threshold(text), max) {
                            Err(failure) => Err(failure),
                            Ok(explode) => Ok(
                                Expression {
                                    count,
                                    max,
                                    modifier,
                                    advantage: term.advantage,
                                    reroll: match reroll {
                                        Some(threshold) => Some(Reroll(threshold)),
                                        None => None,
                                    },
                                    explode: match explode {
                                        Some(threshold) => Some(Explode(threshold)),
                                        None => None,
                                    },
                                },
                            ),
                        },
                    },
                },
            },
        },
    }
}

/// The count of dice that a term gives: one unless it is written.
pub open spec fn counted(term: BoundedTerm) -> Result<i32, Failure> {
    match term.count {
        Some(digits) => number(digits),
        None => Ok(1),
    }
}

/// The flat modifier that `text` gives: zero unless it is written.
pub open spec fn modified(text: Seq<char>) -> Result<i32, Failure> {
    match Token::Modifier.literal(text) {
        Some(literal) => number(literal),
        None => Ok(0),
    }
}

/// A stretch of a text, from one position up to another.
#[derive(Copy, Clone)]
struct Span {
    from: usize,
    to: usize,
}

impl Span {
    /// Whether the span lies within `text`.
    spec fn within(self, text: Seq<char>) -> bool {
        self.from <= self.to <= text.len()
    }

    /// The characters of `text` that the span covers.
    spec fn of(self, text: Seq<char>) -> Seq<char> {
        text.subrange(self.from as int, self.to as int)
    }
}

/// A dice term by the positions of its parts.
struct TermSpans {
    advantage: Advantage,
    count: Option<Span>,
    sides: Span,
}

impl TermSpans {
    /// Whether the parts lie within `text`.
    spec fn within(self, text: Seq<char>) -> bool {
        self.sides.within(text) && (self.count matches Some(count) ==> count.within(text))
    }

    /// The term with the texts of its parts.
    spec fn of(self, text: Seq<char>) -> BoundedTerm {
        BoundedTerm {
            advantage: self.advantage,
            count: match self.count {
                Some(count) => Some(count.of(text)),
                None => None,
            },
            sides: self.sides.of(text),
        }
    }
}

/// Whether the die marker stands at position `at`.
fn die_at(chars: &Vec<char>, at: usize) -> (die: bool)
    ensures
        die == is_die(chars@, at as int),
{
    at < chars.len() && (chars[at] == 'D' || chars[at] == 'd')
}

/// What an advantage marker at the start says.
fn advantage_in(chars: &Vec<char>) -> (advantage: Advantage)
    ensures
        advantage == marked_advantage(chars@),
{
    if chars.len() == 0 {
        Advantage::Normal
    } else if chars[0] == 'A' || chars[0] == 'a' {
        Advantage::Advantage
    } else if chars[0] == 'S' || chars[0] == 's' {
        Advantage::Disadvantage
    } else {
        Advantage::Normal
    }
}

/// Finds the dice term at the start of `chars`.
fn scan_term(chars: &Vec<char>) -> (term: Option<TermSpans>)
    ensures
        match term {
            Some(spans) => spans.within(chars@) && bounded_term(chars@) == Some(spans.of(chars@)),
            None => bounded_term(chars@) is None,
        },
{
    let advantage = advantage_in(chars);
    let start: usize = match advantage {
        Advantage::Normal => 0,
        _ => 1,
    };
    let lead: usize = scan_digits(chars, start);
    if lead > start {
        if die_at(chars, lead) {
            let counted: usize = if die_at(chars, lead + 1) {
                lead + 2
            } else {
                lead + 1
            };
            let end: usize = scan_digits(chars, counted);
            if end > counted {
                return Some(
                    TermSpans {
                        advantage,
                        count: Some(Span { from: start, to: lead }),
                        sides: Span { from: counted, to: end },
                    },
                );
            }
        }
        Some(TermSpans { advantage, count: None, sides: Span { from: start, to: lead } })
    } else {
        let bare: usize = if die_at(chars, start) {
            start + 1
        } else {
            start
        };
        let end: usize = scan_digits(chars, bare);
        if end > bare {
            Some(TermSpans { advantage, count: None, sides: Span { from: bare, to: end } })
        } else {
            None
        }
    }
}

/// Reads the number that stands in `expr` from `from` up to `to`.
fn read_number(expr: &str, chars: &Vec<char>, span: Span) -> (value: Result<i32, Error>)
    requires
        chars@ == expr@,
        span.within(chars@),
    ensures
        match value {
            Ok(value) => number(span.of(chars@)) == Ok::<i32, Failure>(value),
            Err(error) => number(span.of(chars@)) == Err::<i32, Failure>(error@),
        },
{
    match read_signed(chars, span.from, span.to) {
        Ok(value) => Ok(value),
        Err(cause) => Err(
            Error::BadInteger(String::from_str(expr.substring_char(span.from, span.to)), cause),
        ),
    }
}

/// Reads the threshold that `extractor` finds in `expr`: none without a
/// token, `default` for a token without a value, else the value's number.
pub fn parse_threshold_token<T: TokenExtractor>(extractor: &T, expr: &str, default: i32) -> (threshold:
    Result<Option<i32>, Error>)
    ensures
        match threshold {
            Ok(value) => threshold_of(extractor.token(expr@), default) == Ok::<
                Option<i32>,
                Failure,
            >(value),
            Err(error) => threshold_of(extractor.token(expr@), default) == Err::<
                Option<i32>,
                Failure,
            >(error@),
        },
{
    let (is_present, value) = extractor.extract(expr);
    if is_present {
        match value {
            Some(text) => {
                let chars = characters(text);
                assert(chars@.subrange(0, chars@.len() as int) =~= text@);
                match read_signed(&chars, 0, chars.len()) {
                    Ok(parsed) => Ok(Some(parsed)),
                    Err(cause) => Err(Error::BadInteger(String::from_str(text), cause)),
                }
            },
            None => Ok(Some(default)),
        }
    } else {
        Ok(None)
    }
}

/// Reads dice expressions.
pub struct ExpressionParser {
    reroll: RerollTokenExtractor,
    explode: ExplodeTokenExtractor,
}

impl ExpressionParser {
    /// A parser for the notation described at the top of this module.
    pub fn new() -> Self {
        ExpressionParser { reroll: Default::default(), explode: Default::default() }
    }

    /// Reads `expr` as a dice expression.
    pub fn parse(&self, expr: &str) -> (expression: Result<Expression, Error>)
        ensures
            match expression {
                Ok(expression) => parsed(expr@) == Ok::<Expression, Failure>(expression),
                Err(error) => parsed(expr@) == Err::<Expression, Failure>(error@),
            },
    {
        let chars = characters(expr);
        let term = match scan_term(&chars) {
            Some(term) => term,
            None => {
                return Err(Error::BadExpression(String::from_str(expr)));
            },
        };
        let count: i32 = match term.count {
            Some(span) => match read_number(expr, &chars, span) {
                Ok(count) => count,
                Err(error) => {
                    return Err(error);
                },
            },
            None => 1,
        };
        let max: i32 = match read_number(expr, &chars, term.sides) {
            Ok(max) => max,
            Err(error) => {
                return Err(error);
            },
        };
        let sign: usize = Token::Modifier.find(&chars);
        let modifier: i32 = if sign < chars.len() {
            let end: usize = scan_digits(&chars, sign + 1);
            match read_number(expr, &chars, Span { from: sign, to: end }) {
                Ok(modifier) => modifier,
                Err(error) => {
                    return Err(error);
                },
            }
        } else {
            0
        };
        let reroll = match parse_threshold_token(&self.reroll, expr, 1) {
            Ok(Some(threshold)) => Some(Reroll(threshold)),
            Ok(None) => None,
            Err(error) => {
                return Err(error);
            },
        };
        let explode = match parse_threshold_token(&self.explode, expr, max) {
            Ok(Some(threshold)) => Some(Explode(threshold)),
            Ok(None) => None,
            Err(error) => {
                return Err(error);
            },
        };
        Ok(Expression { count, max, modifier, advantage: term.advantage, reroll, explode })
    }
}

impl Default for ExpressionParser {
    fn default() -> Self {
        ExpressionParser::new()
    }
}

/// What a text denotes depends on nothing but what the four scans find in
/// it: the dice term, the modifier, the reroll token and the explode token.
/// Two texts in which they find the same denote the same, wherever the
/// tokens stand and whatever stands between them.
pub proof fn law_parsed_by_parts(one: Seq<char>, other: Seq<char>)
    requires
        bounded_term(one) is Some,
        bounded_term(one) == bounded_term(other),
        Token::Modifier.literal(one) == Token::Modifier.literal(other),
        Token::Reroll.threshold(one) == Token::Reroll.threshold(other),
        Token::Explode.threshold(one) == Token::Explode.threshold(other),
    ensures
        parsed(one) == parsed(other),
{
}

/// A run of digits denotes a number that is not negative.
proof fn lemma_digits_not_negative(text: Seq<char>, from: int)
    requires
        0 <= from < crate::integer::digits_end(text, from),
    ensures
        number(text.subrange(from, crate::integer::digits_end(text, from))) matches Ok(value)
            ==> value >= 0,
{
    crate::integer::lemma_digits_end(text, from);
    let digits = text.subrange(from, crate::integer::digits_end(text, from));
    assert(digits[0] == text[from]);
}

/// The notation has no way to write a negative count, number of sides or
/// threshold: only the modifier has a sign.
pub proof fn law_parsed_not_negative(text: Seq<char>)
    ensures
        parsed(text) matches Ok(expression) ==> {
            &&& expression.count >= 0
            &&& expression.max >= 0
            &&& expression.reroll matches Some(threshold) ==> threshold.0 >= 0
            &&& expression.explode matches Some(threshold) ==> threshold.0 >= 0
        },
{
    if parsed(text) is Ok {
        let advantage = marked_advantage(text);
        let start: int = if advantage == Advantage::Normal {
            0
        } else {
            1
        };
        let lead = crate::integer::digits_end(text, start);
        let behind: int = if is_die(text, lead + 1) {
            lead + 2
        } else {
            lead + 1
        };
        let bare: int = if is_die(text, start) {
            start + 1
        } else {
            start
        };
        if lead > start {
            lemma_digits_not_negative(text, start);
        }
        if crate::integer::digits_end(text, behind) > behind {
            lemma_digits_not_negative(text, behind);
        }
        if crate::integer::digits_end(text, bare) > bare {
            lemma_digits_not_negative(text, bare);
        }
        let reroll = Token::Reroll.first(text, 0);
        Token::Reroll.lemma_first(text, 0);
        if reroll < text.len() {
            crate::integer::lemma_digits_end(text, reroll + 1);
        }
        if crate::integer::digits_end(text, reroll + 1) > reroll + 1 {
            lemma_digits_not_negative(text, reroll + 1);
        }
        let explode = Token::Explode.first(text, 0);
        Token::Explode.lemma_first(text, 0);
        if explode < text.len() {
            crate::integer::lemma_digits_end(text, explode + 1);
        }
        if crate::integer::digits_end(text, explode + 1) > explode + 1 {
            lemma_digits_not_negative(text, explode + 1);
        }
    }
}

} // verus!
