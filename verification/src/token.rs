//! The tokens that may stand anywhere in an expression's text: the flat
//! modifier, the reroll token and the explode token.
//!
//! Each is looked for on its own, over the whole text, and only its first
//! occurrence counts. So the tokens may come in any order.

use crate::integer::{characters, scan_digits};
use vstd::prelude::*;
use vstd::string::StrSliceExecFns;

verus! {

/// The kinds of token.
#[derive(Copy, Clone, Debug, PartialEq, Eq, Hash, Structural)]
pub enum Token {
    /// A sign directly followed by a digit: `+2`, `-1`.
    Modifier,
    /// The letter `r`.
    Reroll,
    /// An exclamation mark, or the letter `e`.
    Explode,
}

impl Token {
    /// Whether a token of this kind starts at position `at` of `text`.
    pub open spec fn starts(self, text: Seq<char>, at: int) -> bool {
        0 <= at < text.len() && match self {
            Token::Modifier => (text[at] == '+' || text[at] == '-') && at + 1 < text.len()
                && crate::integer::is_digit(text[at + 1]),
            Token::Reroll => text[at] == 'r',
            Token::Explode => text[at] == '!' || text[at] == 'e',
        }
    }

    /// The first position at or after `from` where a token of this kind
    /// starts, or the length of `text` if there is none.
    pub open spec fn first(self, text: Seq<char>, from: int) -> int
        decreases text.len() - from,
    {
        if from >= text.len() {
            text.len() as int
        } else if self.starts(text, from) {
            from
        } else {
            self.first(text, from + 1)
        }
    }

    /// The end of the digits that follow the marker of a threshold token
    /// found at `at`.
    pub open spec fn value_end(text: Seq<char>, at: int) -> int {
        crate::integer::digits_end(text, at + 1)
    }

    /// The first token of this kind in `text`, read as a marker with an
    /// optional value: `None` if there is no such token, `Some(None)` if no
    /// digit follows the marker, else the digits that follow it.
    pub open spec fn threshold(self, text: Seq<char>) -> Option<Option<Seq<char>>> {
        let at = self.first(text, 0);
        if at >= text.len() {
            None
        } else if Self::value_end(text, at) == at + 1 {
            Some(None)
        } else {
            Some(Some(text.subrange(at + 1, Self::value_end(text, at))))
        }
    }

    /// The first token of this kind in `text`, read as a signed number: the
    /// sign and the digits that follow it.
    pub open spec fn literal(self, text: Seq<char>) -> Option<Seq<char>> {
        let at = self.first(text, 0);
        if at >= text.len() {
            None
        } else {
            Some(text.subrange(at, Self::value_end(text, at)))
        }
    }

    /// `first` finds a position where a token starts and before which none
    /// does.
    pub proof fn lemma_first(self, text: Seq<char>, from: int)
        requires
            0 <= from <= text.len(),
        ensures
            from <= self.first(text, from) <= text.len(),
            self.first(text, from) < text.len() ==> self.starts(text, self.first(text, from)),
            forall|i: int| from <= i < self.first(text, from) ==> !self.starts(text, i),
        decreases text.len() - from,
    {
        if from < text.len() && !self.starts(text, from) {
            self.lemma_first(text, from + 1);
        }
    }

    /// Whether a token of this kind starts at `at`.
    fn starts_at(self, chars: &Vec<char>, at: usize) -> (starts: bool)
        requires
            at < chars.len(),
        ensures
            starts == self.starts(chars@, at as int),
    {
        let c: char = chars[at];
        match self {
            Token::Modifier => (c == '+' || c == '-') && at + 1 < chars.len()
                && crate::integer::is_digit_char(chars[at + 1]),
            Token::Reroll => c == 'r',
            Token::Explode => c == '!' || c == 'e',
        }
    }

    /// Finds the first token of this kind in `chars`.
    pub fn find(self, chars: &Vec<char>) -> (at: usize)
        ensures
            at == self.first(chars@, 0),
            at <= chars.len(),
    {
        let mut at: usize = 0;
        while at < chars.len() && !self.starts_at(chars, at)
            invariant
                at <= chars.len(),
                self.first(chars@, 0) == self.first(chars@, at as int),
            decreases chars.len() - at,
        {
            at = at + 1;
        }
        at
    }
}

/// Something that finds one kind of token in a text.
pub trait TokenExtractor {
    /// The token that this extractor finds in `text`: `None` if it finds
    /// none, else the text of the value that belongs to the token, if it
    /// has one. An extractor that does not say what it finds is taken to
    /// find nothing.
    open spec fn token(&self, text: Seq<char>) -> Option<Option<Seq<char>>> {
        None
    }

    /// Returns whether a token was found, along with the value that belongs
    /// to it, if any.
    fn extract<'a>(&self, text: &'a str) -> (found: (bool, Option<&'a str>))
        ensures
            match self.token(text@) {
                None => !found.0 && found.1 is None,
                Some(None) => found.0 && found.1 is None,
                Some(Some(value)) => found.0 && (found.1 matches Some(given) && given@ == value),
            },
    ;
}

/// Finds the first token of the given kind and the digits that follow it.
fn extract_threshold<'a>(kind: Token, text: &'a str) -> (found: (bool, Option<&'a str>))
    ensures
        match kind.threshold(text@) {
            None => !found.0 && found.1 is None,
            Some(None) => found.0 && found.1 is None,
            Some(Some(value)) => found.0 && (found.1 matches Some(given) && given@ == value),
        },
{
    let chars = characters(text);
    let at: usize = kind.find(&chars);
    if at >= chars.len() {
        return (false, None);
    }
    let end: usize = scan_digits(&chars, at + 1);
    if end == at + 1 {
        (true, None)
    } else {
        (true, Some(text.substring_char(at + 1, end)))
    }
}

/// Finds the reroll token: the first `r`, with the digits that follow it.
pub struct RerollTokenExtractor {}

impl RerollTokenExtractor {
    fn new() -> Self {
        RerollTokenExtractor {  }
    }
}

impl Default for RerollTokenExtractor {
    fn default() -> Self {
        Self::new()
    }
}

impl TokenExtractor for RerollTokenExtractor {
    open spec fn token(&self, text: Seq<char>) -> Option<Option<Seq<char>>> {
        Token::Reroll.threshold(text)
    }

    fn extract<'a>(&self, text: &'a str) -> (found: (bool, Option<&'a str>)) {
        extract_threshold(Token::Reroll, text)
    }
}

/// Finds the explode token: the first `!` or `e`, with the digits that
/// follow it.
pub struct ExplodeTokenExtractor {}

impl ExplodeTokenExtractor {
    fn new() -> Self {
        ExplodeTokenExtractor {  }
    }
}

impl Default for ExplodeTokenExtractor {
    fn default() -> Self {
        Self::new()
    }
}

impl TokenExtractor for ExplodeTokenExtractor {
    open spec fn token(&self, text: Seq<char>) -> Option<Option<Seq<char>>> {
        Token::Explode.threshold(text)
    }

    fn extract<'a>(&self, text: &'a str) -> (found: (bool, Option<&'a str>)) {
        extract_threshold(Token::Explode, text)
    }
}

} // verus!
