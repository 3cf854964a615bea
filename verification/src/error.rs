//! What can go wrong while an expression is read.

use crate::integer::IntegerError;
use vstd::prelude::*;
use vstd::string::StringExecFns;

verus! {

/// Why a piece of text is no dice expression.
#[derive(Clone, Debug, PartialEq, Eq)]
pub enum Error {
    /// The text does not start with a dice term. Holds the whole text.
    BadExpression(String),
    /// A number in the text does not fit. Holds the number as it was
    /// written, and what was wrong with it.
    BadInteger(String, IntegerError),
}

/// The same failure under the name that callers of the parser know it by.
pub type ExpressionError = Error;

/// An `Error` as a mathematical value: the texts as sequences of characters.
pub enum Failure {
    BadExpression(Seq<char>),
    BadInteger(Seq<char>, IntegerError),
}

impl View for Error {
    type V = Failure;

    open spec fn view(&self) -> Failure {
        match self {
            Error::BadExpression(text) => Failure::BadExpression(text@),
            Error::BadInteger(text, cause) => Failure::BadInteger(text@, *cause),
        }
    }
}

impl IntegerError {
    /// The sentence that describes this error.
    pub open spec fn sentence(self) -> Seq<char> {
        match self {
            IntegerError::Empty => "cannot parse integer from empty string"@,
            IntegerError::InvalidDigit => "invalid digit found in string"@,
            IntegerError::PosOverflow => "number too large to fit in target type"@,
            IntegerError::NegOverflow => "number too small to fit in target type"@,
        }
    }

    /// Describes this error in words.
    pub fn describe(self) -> (text: &'static str)
        ensures
            text@ == self.sentence(),
    {
        match self {
            IntegerError::Empty => "cannot parse integer from empty string",
            IntegerError::InvalidDigit => "invalid digit found in string",
            IntegerError::PosOverflow => "number too large to fit in target type",
            IntegerError::NegOverflow => "number too small to fit in target type",
        }
    }
}

impl Failure {
    /// The message that reports this failure.
    pub open spec fn message(self) -> Seq<char> {
        match self {
            Failure::BadExpression(text) => "Unable to parse expression: "@ + text,
            Failure::BadInteger(text, cause) => "Bad integer: "@ + text + "; "@ + cause.sentence(),
        }
    }
}

impl Error {
    /// The message that reports this error to a person.
    pub fn message(&self) -> (text: String)
        ensures
            text@ == self@.message(),
    {
        match self {
            Error::BadExpression(expression) => {
                let mut text = String::from_str("Unable to parse expression: ");
                text.append(expression.as_str());
                text
            },
            Error::BadInteger(number, cause) => {
                let mut text = String::from_str("Bad integer: ");
                text.append(number.as_str());
                text.append("; ");
                text.append(cause.describe());
                text
            },
        }
    }
}

} // verus!
