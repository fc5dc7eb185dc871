//! The four kinds of failure and how they are shown to a user.

use crate::text::{concat2, concat3, decimal, decimal_string};
use vstd::prelude::*;
use vstd::string::*;

verus! {

/// A malformed token, located in the source text.
#[derive(Debug)]
pub struct LexerError {
    pub message: String,
    pub line: usize,
    pub column: usize,
}

/// A token sequence that is no program, located at the offending token.
#[derive(Debug)]
pub struct ParserError {
    pub message: String,
    pub line: usize,
    pub column: usize,
}

/// A declaration or expression that does not type-check.
#[derive(Debug)]
pub struct TypeError {
    pub message: String,
}

/// A failure while constructing a value or evaluating an expression, with
/// the name of the value type concerned where there is one.
#[derive(Debug)]
pub struct ValidationError {
    pub message: String,
    pub value_type: String,
}

/// Every failure of the pipeline is one of these.
#[derive(Debug)]
pub enum Error {
    Lexer(LexerError),
    Parser(ParserError),
    Type(TypeError),
    Validation(ValidationError),
}

/// The mathematical content of an [`Error`].
pub enum ErrorView {
    Lexer { message: Seq<char>, line: nat, column: nat },
    Parser { message: Seq<char>, line: nat, column: nat },
    Type { message: Seq<char> },
    Validation { message: Seq<char>, value_type: Seq<char> },
}

impl View for Error {
    type V = ErrorView;

    open spec fn view(&self) -> ErrorView {
        match self {
            Error::Lexer(e) => ErrorView::Lexer {
                message: e.message@,
                line: e.line as nat,
                column: e.column as nat,
            },
            Error::Parser(e) => ErrorView::Parser {
                message: e.message@,
                line: e.line as nat,
                column: e.column as nat,
            },
            Error::Type(e) => ErrorView::Type { message: e.message@ },
            Error::Validation(e) => ErrorView::Validation {
                message: e.message@,
                value_type: e.value_type@,
            },
        }
    }
}

/// The text ` at L:C: ` that follows the kind of a located error.
pub open spec fn location_text(line: nat, column: nat) -> Seq<char> {
    " at "@ + decimal(line) + ":"@ + decimal(column) + ": "@
}

/// The user-visible text of an error: its kind, its location where it has
/// one, and its message.
pub open spec fn rendered(e: ErrorView) -> Seq<char> {
    match e {
        ErrorView::Lexer { message, line, column } => "Lexer error"@ + location_text(line, column)
            + message,
        ErrorView::Parser { message, line, column } => "Parser error"@ + location_text(
            line,
            column,
        ) + message,
        ErrorView::Type { message } => "Type error: "@ + message,
        ErrorView::Validation { message, value_type } => "Validation error: "@ + message,
    }
}

fn location_string(line: usize, column: usize) -> (r: String)
    ensures
        r@ == location_text(line as nat, column as nat),
{
    let l = decimal_string(line as u64);
    let c = decimal_string(column as u64);
    let mut out = concat3(" at ", l.as_str(), ":");
    out.append(c.as_str());
    out.append(": ");
    out
}

impl Error {
    /// A lexer error at the given place.
    pub fn lexer(message: String, line: usize, column: usize) -> (r: Error)
        ensures
            r@ == (ErrorView::Lexer {
                message: message@,
                line: line as nat,
                column: column as nat,
            }),
    {
        Error::Lexer(LexerError { message, line, column })
    }

    /// A parser error at the given place.
    pub fn parser(message: String, line: usize, column: usize) -> (r: Error)
        ensures
            r@ == (ErrorView::Parser {
                message: message@,
                line: line as nat,
                column: column as nat,
            }),
    {
        Error::Parser(ParserError { message, line, column })
    }

    /// A type error.
    pub fn type_error(message: String) -> (r: Error)
        ensures
            r@ == (ErrorView::Type { message: message@ }),
    {
        Error::Type(TypeError { message })
    }

    /// A validation error about the named value type.
    pub fn validation(message: String, value_type: String) -> (r: Error)
        ensures
            r@ == (ErrorView::Validation { message: message@, value_type: value_type@ }),
    {
        Error::Validation(ValidationError { message, value_type })
    }

    /// The user-visible text: `<kind> error[ at L:C]: <message>`.
    pub fn to_string(&self) -> (r: String)
        ensures
            r@ == rendered(self@),
    {
        match self {
            Error::Lexer(e) => {
                let at = location_string(e.line, e.column);
                concat3("Lexer error", at.as_str(), e.message.as_str())
            },
            Error::Parser(e) => {
                let at = location_string(e.line, e.column);
                concat3("Parser error", at.as_str(), e.message.as_str())
            },
            Error::Type(e) => concat2("Type error: ", e.message.as_str()),
            Error::Validation(e) => concat2("Validation error: ", e.message.as_str()),
        }
    }
}

/// The mathematical content of a [`ValidationError`].
pub struct Fault {
    pub message: Seq<char>,
    pub value_type: Seq<char>,
}

impl View for ValidationError {
    type V = Fault;

    open spec fn view(&self) -> Fault {
        Fault { message: self.message@, value_type: self.value_type@ }
    }
}

/// A fault as an error of the validation kind.
pub open spec fn as_error(f: Fault) -> ErrorView {
    ErrorView::Validation { message: f.message, value_type: f.value_type }
}

/// A fault with the given message, about no value type in particular.
pub open spec fn plain_fault(message: Seq<char>) -> Fault {
    Fault { message, value_type: Seq::empty() }
}

/// A fault whose message ends in a name.
pub open spec fn named_fault(prefix: Seq<char>, name: Seq<char>, value_type: Seq<char>) -> Fault {
    Fault { message: prefix + name, value_type }
}

impl ValidationError {
    /// A validation error about no value type in particular.
    pub fn plain(message: &str) -> (r: ValidationError)
        ensures
            r@ == plain_fault(message@),
    {
        ValidationError { message: String::from_str(message), value_type: String::new() }
    }

    /// A validation error whose message ends in a name.
    pub fn named(prefix: &str, name: &str, value_type: String) -> (r: ValidationError)
        ensures
            r@ == named_fault(prefix@, name@, value_type@),
    {
        ValidationError { message: concat2(prefix, name), value_type }
    }
}

impl Error {
    /// Wraps a validation error.
    pub fn from_validation(e: ValidationError) -> (r: Error)
        ensures
            r@ == as_error(e@),
    {
        Error::Validation(e)
    }
}

} // verus!
