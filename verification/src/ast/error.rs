//! What can go wrong while parsing, and how it is reported.

use vstd::prelude::*;
use vstd::string::StringExecFns;
use crate::number::{decimal, decimal_of};
use crate::text::string_of;

verus! {

/// A failure to parse an expression.
#[derive(Debug, PartialEq)]
pub enum ParseError {
    /// In a typed context the text was neither a value of the expected type
    /// nor the name of a bound variable.
    TypeMismatch { expected: String, found: String },
    /// An argument of a call failed to parse.
    MalformedCallArgument,
}

/// A failure to parse a statement, with the number of its line.
#[derive(Debug, PartialEq)]
pub struct StmtError {
    pub line: usize,
    pub cause: ParseError,
}

/// The value of a [`ParseError`].
pub enum ParseErrorView {
    TypeMismatch { expected: Seq<char>, found: Seq<char> },
    MalformedCallArgument,
}

/// The value of a [`StmtError`].
pub struct StmtErrorView {
    pub line: usize,
    pub cause: ParseErrorView,
}

impl View for ParseError {
    type V = ParseErrorView;

    open spec fn view(&self) -> ParseErrorView {
        match self {
            ParseError::TypeMismatch { expected, found } => ParseErrorView::TypeMismatch {
                expected: expected@,
                found: found@,
            },
            ParseError::MalformedCallArgument => ParseErrorView::MalformedCallArgument,
        }
    }
}

impl View for StmtError {
    type V = StmtErrorView;

    open spec fn view(&self) -> StmtErrorView {
        StmtErrorView { line: self.line, cause: self.cause@ }
    }
}

impl ParseErrorView {
    /// The text of the diagnostic.
    pub open spec fn message(self) -> Seq<char> {
        match self {
            ParseErrorView::TypeMismatch { expected, found } => "Invalid type expected '"@
                + expected + "' ! expr : "@ + found,
            ParseErrorView::MalformedCallArgument => "Malformed call argument"@,
        }
    }
}

impl StmtErrorView {
    /// The text of the diagnostic: the line number, then the cause.
    pub open spec fn message(self) -> Seq<char> {
        "line "@ + decimal(self.line as int) + ": "@ + self.cause.message()
    }
}

impl ParseError {
    /// The text of the diagnostic.
    pub fn message(&self) -> (r: String)
        ensures
            r@ == self@.message(),
    {
        match self {
            ParseError::TypeMismatch { expected, found } => {
                let mut r = String::from_str("Invalid type expected '");
                r.append(expected.as_str());
                r.append("' ! expr : ");
                r.append(found.as_str());
                r
            },
            ParseError::MalformedCallArgument => String::from_str("Malformed call argument"),
        }
    }
}

impl StmtError {
    /// The text of the diagnostic: the line number, then the cause.
    pub fn message(&self) -> (r: String)
        ensures
            r@ == self@.message(),
    {
        let number = string_of(&decimal_of(self.line));
        let cause = self.cause.message();
        let mut r = String::from_str("line ");
        r.append(number.as_str());
        r.append(": ");
        r.append(cause.as_str());
        r
    }
}

} // verus!
