//! What is kept between runs: named sets of expressions, and the colours
//! that values are shown in.

use crate::args::AddAlias;
use crate::error::{Error, Failure};
use crate::expression::{Expression, ExpressionParser};
use crate::integer::characters;
use vstd::prelude::*;

verus! {

/// An expression as it was typed, together with what it denotes.
#[derive(Clone, Debug)]
pub struct StoredExpression {
    /// The text as it was typed.
    pub text: String,
    /// The expression that the text denotes.
    pub expression: Expression,
}

impl View for StoredExpression {
    type V = (Seq<char>, Expression);

    open spec fn view(&self) -> (Seq<char>, Expression) {
        (self.text@, self.expression)
    }
}

impl StoredExpression {
    /// Puts a text and its expression together.
    pub fn new(text: String, expression: Expression) -> (stored: Self)
        ensures
            stored@ == (text@, expression),
    {
        StoredExpression { text, expression }
    }
}

/// A set of expressions that are rolled together under one name.
#[derive(Clone, Debug)]
pub struct Formula {
    /// What the set is for.
    pub comment: Option<String>,
    /// The expressions, in the order in which they are rolled.
    pub expressions: Vec<StoredExpression>,
}

/// What the texts denote, each with its text; or the failure of the first
/// text that denotes no expression.
pub open spec fn compiled(texts: Seq<Seq<char>>) -> Result<Seq<(Seq<char>, Expression)>, Failure>
    decreases texts.len(),
{
    if texts.len() == 0 {
        Ok(Seq::empty())
    } else {
        match compiled(texts.drop_last()) {
            Err(failure) => Err(failure),
            Ok(before) => match crate::expression::parsed(texts.last()) {
                Err(failure) => Err(failure),
                Ok(expression) => Ok(before.push((texts.last(), expression))),
            },
        }
    }
}

/// The texts of `candidates`.
pub open spec fn texts_of(candidates: Seq<String>) -> Seq<Seq<char>> {
    candidates.map_values(|candidate: String| candidate@)
}

/// The texts and expressions of `stored`.
pub open spec fn views_of(stored: Seq<StoredExpression>) -> Seq<(Seq<char>, Expression)> {
    stored.map_values(|one: StoredExpression| one@)
}

impl AddAlias {
    /// The formula to store under the alias: the candidate expressions as
    /// they were typed, each with what it denotes. The first candidate that
    /// denotes nothing makes the whole fail.
    pub fn formula(&self, parser: &ExpressionParser) -> (formula: Result<Formula, Error>)
        ensures
            match formula {
                Ok(formula) => compiled(texts_of(self.candidate_expressions@)) == Ok::<
                    Seq<(Seq<char>, Expression)>,
                    Failure,
                >(views_of(formula.expressions@)) && (match self.comment {
                    Some(comment) => formula.comment matches Some(kept) && kept@ == comment@,
                    None => formula.comment is None,
                }),
                Err(error) => compiled(texts_of(self.candidate_expressions@)) == Err::<
                    Seq<(Seq<char>, Expression)>,
                    Failure,
                >(error@),
            },
    {
        let ghost texts = texts_of(self.candidate_expressions@);
        let mut expressions: Vec<StoredExpression> = Vec::new();
        let mut at: usize = 0;
        assert(texts.take(0) =~= Seq::<Seq<char>>::empty());
        assert(views_of(expressions@) =~= Seq::<(Seq<char>, Expression)>::empty());
        while at < self.candidate_expressions.len()
            invariant
                at <= self.candidate_expressions.len(),
                texts == texts_of(self.candidate_expressions@),
                compiled(texts.take(at as int)) == Ok::<Seq<(Seq<char>, Expression)>, Failure>(
                    views_of(expressions@),
                ),
            decreases self.candidate_expressions.len() - at,
        {
            let candidate: &String = &self.candidate_expressions[at];
            let ghost before = views_of(expressions@);
            proof {
                assert(texts.take(at + 1).drop_last() =~= texts.take(at as int));
                assert(texts.take(at + 1).last() == candidate@);
            }
            match parser.parse(candidate.as_str()) {
                Ok(expression) => {
                    expressions.push(StoredExpression::new(candidate.clone(), expression));
                    assert(views_of(expressions@) =~= before.push((candidate@, expression)));
                },
                Err(error) => {
                    proof {
                        lemma_failure_stays(texts, at + 1);
                    }
                    return Err(error);
                },
            }
            at = at + 1;
        }
        assert(texts.take(at as int) =~= texts);
        let comment: Option<String> = match &self.comment {
            Some(comment) => Some(comment.clone()),
            None => None,
        };
        Ok(Formula { comment, expressions })
    }
}

/// Once a text has failed, more texts behind it change nothing.
proof fn lemma_failure_stays(texts: Seq<Seq<char>>, upto: int)
    requires
        0 <= upto <= texts.len(),
        compiled(texts.take(upto)) is Err,
    ensures
        compiled(texts) == compiled(texts.take(upto)),
    decreases texts.len() - upto,
{
    if upto < texts.len() {
        assert(texts.take(upto + 1).drop_last() =~= texts.take(upto));
        lemma_failure_stays(texts, upto + 1);
    } else {
        assert(texts.take(upto) =~= texts);
    }
}

/// The colours of a terminal.
#[derive(Copy, Clone, Debug, PartialEq, Eq, Hash, Structural)]
pub enum Color {
    Black,
    Red,
    Green,
    Yellow,
    Blue,
    Magenta,
    Cyan,
    White,
    Default,
    BrightBlack,
    BrightRed,
    BrightGreen,
    BrightYellow,
    BrightBlue,
    BrightMagenta,
    BrightCyan,
    BrightWhite,
}

/// The upper-case form of `c` if it is an ASCII small letter, else `c`
/// itself.
pub open spec fn raised(c: char) -> char {
    if 'a' <= c && c <= 'z' {
        (c as int - 32) as char
    } else {
        c
    }
}

/// `text` with its ASCII small letters in upper case.
pub open spec fn upper(text: Seq<char>) -> Seq<char> {
    text.map_values(|c: char| raised(c))
}

impl Color {
    /// The name of this colour, as it is written to a file.
    pub open spec fn label(self) -> Seq<char> {
        match self {
            Color::Black => "Black"@,
            Color::Red => "Red"@,
            Color::Green => "Green"@,
            Color::Yellow => "Yellow"@,
            Color::Blue => "Blue"@,
            Color::Magenta => "Magenta"@,
            Color::Cyan => "Cyan"@,
            Color::White => "White"@,
            Color::Default => "Default"@,
            Color::BrightBlack => "BrightBlack"@,
            Color::BrightRed => "BrightRed"@,
            Color::BrightGreen => "BrightGreen"@,
            Color::BrightYellow => "BrightYellow"@,
            Color::BrightBlue => "BrightBlue"@,
            Color::BrightMagenta => "BrightMagenta"@,
            Color::BrightCyan => "BrightCyan"@,
            Color::BrightWhite => "BrightWhite"@,
        }
    }

    /// The colour that `text` names, whatever the case of its letters.
    pub open spec fn named(text: Seq<char>) -> Option<Color> {
        let name = upper(text);
        if name == "BLACK"@ {
            Some(Color::Black)
        } else if name == "RED"@ {
            Some(Color::Red)
        } else if name == "GREEN"@ {
            Some(Color::Green)
        } else if name == "YELLOW"@ {
            Some(Color::Yellow)
        } else if name == "BLUE"@ {
            Some(Color::Blue)
        } else if name == "MAGENTA"@ {
            Some(Color::Magenta)
        } else if name == "CYAN"@ {
            Some(Color::Cyan)
        } else if name == "WHITE"@ {
            Some(Color::White)
        } else if name == "DEFAULT"@ {
            Some(Color::Default)
        } else if name == "BRIGHTBLACK"@ {
            Some(Color::BrightBlack)
        } else if name == "BRIGHTRED"@ {
            Some(Color::BrightRed)
        } else if name == "BRIGHTGREEN"@ {
            Some(Color::BrightGreen)
        } else if name == "BRIGHTYELLOW"@ {
            Some(Color::BrightYellow)
        } else if name == "BRIGHTBLUE"@ {
            Some(Color::BrightBlue)
        } else if name == "BRIGHTMAGENTA"@ {
            Some(Color::BrightMagenta)
        } else if name == "BRIGHTCYAN"@ {
            Some(Color::BrightCyan)
        } else if name == "BRIGHTWHITE"@ {
            Some(Color::BrightWhite)
        } else {
            None
        }
    }

    /// The name of this colour, as it is written to a file.
    pub fn name(self) -> (name: &'static str)
        ensures
            name@ == self.label(),
    {
        match self {
            Color::Black => "Black",
            Color::Red => "Red",
            Color::Green => "Green",
            Color::Yellow => "Yellow",
            Color::Blue => "Blue",
            Color::Magenta => "Magenta",
            Color::Cyan => "Cyan",
            Color::White => "White",
            Color::Default => "Default",
            Color::BrightBlack => "BrightBlack",
            Color::BrightRed => "BrightRed",
            Color::BrightGreen => "BrightGreen",
            Color::BrightYellow => "BrightYellow",
            Color::BrightBlue => "BrightBlue",
            Color::BrightMagenta => "BrightMagenta",
            Color::BrightCyan => "BrightCyan",
            Color::BrightWhite => "BrightWhite",
        }
    }

    /// The colour that `text` names, whatever the case of its letters.
    pub fn from_name(text: &str) -> (color: Option<Color>)
        ensures
            color == Color::named(text@),
    {
        let chars = characters(text);
        let mut name: Vec<char> = Vec::new();
        let mut at: usize = 0;
        while at < chars.len()
            invariant
                at <= chars.len(),
                name@ == upper(chars@.take(at as int)),
            decreases chars.len() - at,
        {
            let c: char = chars[at];
            let raised: char = if 'a' <= c && c <= 'z' {
                ((c as u8) - 32) as char
            } else {
                c
            };
            name.push(raised);
            assert(upper(chars@.take(at + 1)) =~= upper(chars@.take(at as int)).push(raised));
            at = at + 1;
        }
        assert(chars@.take(at as int) =~= chars@);
        if same(&name, "BLACK") {
            Some(Color::Black)
        } else if same(&name, "RED") {
            Some(Color::Red)
        } else if same(&name, "GREEN") {
            Some(Color::Green)
        } else if same(&name, "YELLOW") {
            Some(Color::Yellow)
        } else if same(&name, "BLUE") {
            Some(Color::Blue)
        } else if same(&name, "MAGENTA") {
            Some(Color::Magenta)
        } else if same(&name, "CYAN") {
            Some(Color::Cyan)
        } else if same(&name, "WHITE") {
            Some(Color::White)
        } else if same(&name, "DEFAULT") {
            Some(Color::Default)
        } else if same(&name, "BRIGHTBLACK") {
            Some(Color::BrightBlack)
        } else if same(&name, "BRIGHTRED") {
            Some(Color::BrightRed)
        } else if same(&name, "BRIGHTGREEN") {
            Some(Color::BrightGreen)
        } else if same(&name, "BRIGHTYELLOW") {
            Some(Color::BrightYellow)
        } else if same(&name, "BRIGHTBLUE") {
            Some(Color::BrightBlue)
        } else if same(&name, "BRIGHTMAGENTA") {
            Some(Color::BrightMagenta)
        } else if same(&name, "BRIGHTCYAN") {
            Some(Color::BrightCyan)
        } else if same(&name, "BRIGHTWHITE") {
            Some(Color::BrightWhite)
        } else {
            None
        }
    }
}

/// Every colour is found again by the name that it is written with.
pub proof fn law_color_found_by_name(color: Color)
    ensures
        Color::named(color.label()) == Some(color),
{
    reveal_strlit("BLACK");
    reveal_strlit("RED");
    reveal_strlit("GREEN");
    reveal_strlit("YELLOW");
    reveal_strlit("BLUE");
    reveal_strlit("MAGENTA");
    reveal_strlit("CYAN");
    reveal_strlit("WHITE");
    reveal_strlit("DEFAULT");
    reveal_strlit("BRIGHTBLACK");
    reveal_strlit("BRIGHTRED");
    reveal_strlit("BRIGHTGREEN");
    reveal_strlit("BRIGHTYELLOW");
    reveal_strlit("BRIGHTBLUE");
    reveal_strlit("BRIGHTMAGENTA");
    reveal_strlit("BRIGHTCYAN");
    reveal_strlit("BRIGHTWHITE");
    match color {
        Color::Black => {
            reveal_strlit("Black");
            assert(upper("Black"@) =~= "BLACK"@);
        },
        Color::Red => {
            reveal_strlit("Red");
            assert(upper("Red"@) =~= "RED"@);
            assert("RED"@.len() != "BLACK"@.len());
        },
        Color::Green => {
            reveal_strlit("Green");
            assert(upper("Green"@) =~= "GREEN"@);
            assert("GREEN"@[0] != "BLACK"@[0]);
            assert("GREEN"@.len() != "RED"@.len());
        },
        Color::Yellow => {
            reveal_strlit("Yellow");
            assert(upper("Yellow"@) =~= "YELLOW"@);
            assert("YELLOW"@.len() != "BLACK"@.len());
            assert("YELLOW"@.len() != "RED"@.len());
            assert("YELLOW"@.len() != "GREEN"@.len());
        },
        Color::Blue => {
            reveal_strlit("Blue");
            assert(upper("Blue"@) =~= "BLUE"@);
            assert("BLUE"@.len() != "BLACK"@.len());
            assert("BLUE"@.len() != "RED"@.len());
            assert("BLUE"@.len() != "GREEN"@.len());
            assert("BLUE"@.len() != "YELLOW"@.len());
        },
        Color::Magenta => {
            reveal_strlit("Magenta");
            assert(upper("Magenta"@) =~= "MAGENTA"@);
            assert("MAGENTA"@.len() != "BLACK"@.len());
            assert("MAGENTA"@.len() != "RED"@.len());
            assert("MAGENTA"@.len() != "GREEN"@.len());
            assert("MAGENTA"@.len() != "YELLOW"@.len());
            assert("MAGENTA"@.len() != "BLUE"@.len());
        },
        Color::Cyan => {
            reveal_strlit("Cyan");
            assert(upper("Cyan"@) =~= "CYAN"@);
            assert("CYAN"@.len() != "BLACK"@.len());
            assert("CYAN"@.len() != "RED"@.len());
            assert("CYAN"@.len() != "GREEN"@.len());
            assert("CYAN"@.len() != "YELLOW"@.len());
            assert("CYAN"@[0] != "BLUE"@[0]);
            assert("CYAN"@.len() != "MAGENTA"@.len());
        },
        Color::White => {
            reveal_strlit("White");
            assert(upper("White"@) =~= "WHITE"@);
            assert("WHITE"@[0] != "BLACK"@[0]);
            assert("WHITE"@.len() != "RED"@.len());
            assert("WHITE"@[0] != "GREEN"@[0]);
            assert("WHITE"@.len() != "YELLOW"@.len());
            assert("WHITE"@.len() != "BLUE"@.len());
            assert("WHITE"@.len() != "MAGENTA"@.len());
            assert("WHITE"@.len() != "CYAN"@.len());
        },
        Color::Default => {
            reveal_strlit("Default");
            assert(upper("Default"@) =~= "DEFAULT"@);
            assert("DEFAULT"@.len() != "BLACK"@.len());
            assert("DEFAULT"@.len() != "RED"@.len());
            assert("DEFAULT"@.len() != "GREEN"@.len());
            assert("DEFAULT"@.len() != "YELLOW"@.len());
            assert("DEFAULT"@.len() != "BLUE"@.len());
            assert("DEFAULT"@[0] != "MAGENTA"@[0]);
            assert("DEFAULT"@.len() != "CYAN"@.len());
            assert("DEFAULT"@.len() != "WHITE"@.len());
        },
        Color::BrightBlack => {
            reveal_strlit("BrightBlack");
            assert(upper("BrightBlack"@) =~= "BRIGHTBLACK"@);
            assert("BRIGHTBLACK"@.len() != "BLACK"@.len());
            assert("BRIGHTBLACK"@.len() != "RED"@.len());
            assert("BRIGHTBLACK"@.len() != "GREEN"@.len());
            assert("BRIGHTBLACK"@.len() != "YELLOW"@.len());
            assert("BRIGHTBLACK"@.len() != "BLUE"@.len());
            assert("BRIGHTBLACK"@.len() != "MAGENTA"@.len());
            assert("BRIGHTBLACK"@.len() != "CYAN"@.len());
            assert("BRIGHTBLACK"@.len() != "WHITE"@.len());
            assert("BRIGHTBLACK"@.len() != "DEFAULT"@.len());
        },
        Color::BrightRed => {
            reveal_strlit("BrightRed");
            assert(upper("BrightRed"@) =~= "BRIGHTRED"@);
            assert("BRIGHTRED"@.len() != "BLACK"@.len());
            assert("BRIGHTRED"@.len() != "RED"@.len());
            assert("BRIGHTRED"@.len() != "GREEN"@.len());
            assert("BRIGHTRED"@.len() != "YELLOW"@.len());
            assert("BRIGHTRED"@.len() != "BLUE"@.len());
            assert("BRIGHTRED"@.len() != "MAGENTA"@.len());
            assert("BRIGHTRED"@.len() != "CYAN"@.len());
            assert("BRIGHTRED"@.len() != "WHITE"@.len());
            assert("BRIGHTRED"@.len() != "DEFAULT"@.len());
            assert("BRIGHTRED"@.len() != "BRIGHTBLACK"@.len());
        },
        Color::BrightGreen => {
            reveal_strlit("BrightGreen");
            assert(upper("BrightGreen"@) =~= "BRIGHTGREEN"@);
            assert("BRIGHTGREEN"@.len() != "BLACK"@.len());
            assert("BRIGHTGREEN"@.len() != "RED"@.len());
            assert("BRIGHTGREEN"@.len() != "GREEN"@.len());
            assert("BRIGHTGREEN"@.len() != "YELLOW"@.len());
            assert("BRIGHTGREEN"@.len() != "BLUE"@.len());
            assert("BRIGHTGREEN"@.len() != "MAGENTA"@.len());
            assert("BRIGHTGREEN"@.len() != "CYAN"@.len());
            assert("BRIGHTGREEN"@.len() != "WHITE"@.len());
            assert("BRIGHTGREEN"@.len() != "DEFAULT"@.len());
            assert("BRIGHTGREEN"@[6] != "BRIGHTBLACK"@[6]);
            assert("BRIGHTGREEN"@.len() != "BRIGHTRED"@.len());
        },
        Color::BrightYellow => {
            reveal_strlit("BrightYellow");
            assert(upper("BrightYellow"@) =~= "BRIGHTYELLOW"@);
            assert("BRIGHTYELLOW"@.len() != "BLACK"@.len());
            assert("BRIGHTYELLOW"@.len() != "RED"@.len());
            assert("BRIGHTYELLOW"@.len() != "GREEN"@.len());
            assert("BRIGHTYELLOW"@.len() != "YELLOW"@.len());
            assert("BRIGHTYELLOW"@.len() != "BLUE"@.len());
            assert("BRIGHTYELLOW"@.len() != "MAGENTA"@.len());
            assert("BRIGHTYELLOW"@.len() != "CYAN"@.len());
            assert("BRIGHTYELLOW"@.len() != "WHITE"@.len());
            assert("BRIGHTYELLOW"@.len() != "DEFAULT"@.len());
            assert("BRIGHTYELLOW"@.len() != "BRIGHTBLACK"@.len());
            assert("BRIGHTYELLOW"@.len() != "BRIGHTRED"@.len());
            assert("BRIGHTYELLOW"@.len() != "BRIGHTGREEN"@.len());
        },
        Color::BrightBlue => {
            reveal_strlit("BrightBlue");
            assert(upper("BrightBlue"@) =~= "BRIGHTBLUE"@);
            assert("BRIGHTBLUE"@.len() != "BLACK"@.len());
            assert("BRIGHTBLUE"@.len() != "RED"@.len());
            assert("BRIGHTBLUE"@.len() != "GREEN"@.len());
            assert("BRIGHTBLUE"@.len() != "YELLOW"@.len());
            assert("BRIGHTBLUE"@.len() != "BLUE"@.len());
            assert("BRIGHTBLUE"@.len() != "MAGENTA"@.len());
            assert("BRIGHTBLUE"@.len() != "CYAN"@.len());
            assert("BRIGHTBLUE"@.len() != "WHITE"@.len());
            assert("BRIGHTBLUE"@.len() != "DEFAULT"@.len());
            assert("BRIGHTBLUE"@.len() != "BRIGHTBLACK"@.len());
            assert("BRIGHTBLUE"@.len() != "BRIGHTRED"@.len());
            assert("BRIGHTBLUE"@.len() != "BRIGHTGREEN"@.len());
            assert("BRIGHTBLUE"@.len() != "BRIGHTYELLOW"@.len());
        },
        Color::BrightMagenta => {
            reveal_strlit("BrightMagenta");
            assert(upper("BrightMagenta"@) =~= "BRIGHTMAGENTA"@);
            assert("BRIGHTMAGENTA"@.len() != "BLACK"@.len());
            assert("BRIGHTMAGENTA"@.len() != "RED"@.len());
            assert("BRIGHTMAGENTA"@.len() != "GREEN"@.len());
            assert("BRIGHTMAGENTA"@.len() != "YELLOW"@.len());
            assert("BRIGHTMAGENTA"@.len() != "BLUE"@.len());
            assert("BRIGHTMAGENTA"@.len() != "MAGENTA"@.len());
            assert("BRIGHTMAGENTA"@.len() != "CYAN"@.len());
            assert("BRIGHTMAGENTA"@.len() != "WHITE"@.len());
            assert("BRIGHTMAGENTA"@.len() != "DEFAULT"@.len());
            assert("BRIGHTMAGENTA"@.len() != "BRIGHTBLACK"@.len());
            assert("BRIGHTMAGENTA"@.len() != "BRIGHTRED"@.len());
            assert("BRIGHTMAGENTA"@.len() != "BRIGHTGREEN"@.len());
            assert("BRIGHTMAGENTA"@.len() != "BRIGHTYELLOW"@.len());
            assert("BRIGHTMAGENTA"@.len() != "BRIGHTBLUE"@.len());
        },
        Color::BrightCyan => {
            reveal_strlit("BrightCyan");
            assert(upper("BrightCyan"@) =~= "BRIGHTCYAN"@);
            assert("BRIGHTCYAN"@.len() != "BLACK"@.len());
            assert("BRIGHTCYAN"@.len() != "RED"@.len());
            assert("BRIGHTCYAN"@.len() != "GREEN"@.len());
            assert("BRIGHTCYAN"@.len() != "YELLOW"@.len());
            assert("BRIGHTCYAN"@.len() != "BLUE"@.len());
            assert("BRIGHTCYAN"@.len() != "MAGENTA"@.len());
            assert("BRIGHTCYAN"@.len() != "CYAN"@.len());
            assert("BRIGHTCYAN"@.len() != "WHITE"@.len());
            assert("BRIGHTCYAN"@.len() != "DEFAULT"@.len());
            assert("BRIGHTCYAN"@.len() != "BRIGHTBLACK"@.len());
            assert("BRIGHTCYAN"@.len() != "BRIGHTRED"@.len());
            assert("BRIGHTCYAN"@.len() != "BRIGHTGREEN"@.len());
            assert("BRIGHTCYAN"@.len() != "BRIGHTYELLOW"@.len());
            assert("BRIGHTCYAN"@[6] != "BRIGHTBLUE"@[6]);
            assert("BRIGHTCYAN"@.len() != "BRIGHTMAGENTA"@.len());
        },
        Color::BrightWhite => {
            reveal_strlit("BrightWhite");
            assert(upper("BrightWhite"@) =~= "BRIGHTWHITE"@);
            assert("BRIGHTWHITE"@.len() != "BLACK"@.len());
            assert("BRIGHTWHITE"@.len() != "RED"@.len());
            assert("BRIGHTWHITE"@.len() != "GREEN"@.len());
            assert("BRIGHTWHITE"@.len() != "YELLOW"@.len());
            assert("BRIGHTWHITE"@.len() != "BLUE"@.len());
            assert("BRIGHTWHITE"@.len() != "MAGENTA"@.len());
            assert("BRIGHTWHITE"@.len() != "CYAN"@.len());
            assert("BRIGHTWHITE"@.len() != "WHITE"@.len());
            assert("BRIGHTWHITE"@.len() != "DEFAULT"@.len());
            assert("BRIGHTWHITE"@[6] != "BRIGHTBLACK"@[6]);
            assert("BRIGHTWHITE"@.len() != "BRIGHTRED"@.len());
            assert("BRIGHTWHITE"@[6] != "BRIGHTGREEN"@[6]);
            assert("BRIGHTWHITE"@.len() != "BRIGHTYELLOW"@.len());
            assert("BRIGHTWHITE"@.len() != "BRIGHTBLUE"@.len());
            assert("BRIGHTWHITE"@.len() != "BRIGHTMAGENTA"@.len());
            assert("BRIGHTWHITE"@.len() != "BRIGHTCYAN"@.len());
        },
    }
}

/// Raising the letters of a text that is already raised changes nothing, so
/// a colour's name is read the same in every case of its letters.
pub proof fn law_color_name_ignores_case(text: Seq<char>)
    ensures
        Color::named(upper(text)) == Color::named(text),
{
    assert(upper(upper(text)) =~= upper(text));
}

/// Whether `chars` spell `text`.
fn same(chars: &Vec<char>, text: &str) -> (equal: bool)
    ensures
        equal == (chars@ == text@),
{
    let other = characters(text);
    if chars.len() != other.len() {
        return false;
    }
    let mut at: usize = 0;
    while at < chars.len()
        invariant
            at <= chars.len() == other.len(),
            other@ == text@,
            chars@.take(at as int) == other@.take(at as int),
        decreases chars.len() - at,
    {
        if chars[at] != other[at] {
            assert(chars@[at as int] != text@[at as int]);
            return false;
        }
        assert(chars@.take(at + 1) =~= chars@.take(at as int).push(chars@[at as int]));
        assert(other@.take(at + 1) =~= other@.take(at as int).push(other@[at as int]));
        at = at + 1;
    }
    assert(chars@.take(at as int) =~= chars@);
    assert(other@.take(at as int) =~= other@);
    true
}

/// The colours that values are shown in.
#[derive(Copy, Clone, Debug)]
pub struct Colors {
    /// The colour of a one, if it is not bright red.
    pub low: Option<Color>,
    /// The colour of the largest value, if it is not bright green.
    pub high: Option<Color>,
}

impl Default for Colors {
    fn default() -> (colors: Self)
        ensures
            colors.low is None,
            colors.high is None,
    {
        Colors { low: None, high: None }
    }
}

impl Colors {
    /// The colour of the largest value of a die.
    pub fn high(&self) -> (color: Color)
        ensures
            color == match self.high {
                Some(chosen) => chosen,
                None => Color::BrightGreen,
            },
    {
        match self.high {
            Some(chosen) => chosen,
            None => Color::BrightGreen,
        }
    }

    /// The colour of a one.
    pub fn low(&self) -> (color: Color)
        ensures
            color == match self.low {
                Some(chosen) => chosen,
                None => Color::BrightRed,
            },
    {
        match self.low {
            Some(chosen) => chosen,
            None => Color::BrightRed,
        }
    }
}

} // verus!
