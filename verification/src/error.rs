//! Positioned diagnostics shared by the scanner, the parser and the
//! interpreter.

use vstd::prelude::*;
use vstd::string::*;
use crate::text::{decimal_text, push_usize};

verus! {

/// What went wrong.
#[derive(Debug, PartialEq)]
pub enum ErrorKind {
    /// Lexical: a character that starts no token.
    UnexpectedCharacter,
    /// Lexical: the input ended inside a string literal.
    UnterminatedString,
    /// Lexical: a number whose value cannot be represented.
    MalformedNumber,
    /// Syntax: a token that starts no expression.
    ExpectedExpression,
    /// Syntax: the given token was required here.
    ExpectedToken(String),
    /// Syntax: a variable name was required here.
    ExpectedIdentifier,
    /// Run time: the named variable has no binding.
    UndefinedVariable(String),
    /// A diagnostic that belongs to none of the classes above.
    Unclassified,
}

/// The mathematical model of an [`ErrorKind`].
pub enum SpecErrorKind {
    UnexpectedCharacter,
    UnterminatedString,
    MalformedNumber,
    ExpectedExpression,
    ExpectedToken(Seq<char>),
    ExpectedIdentifier,
    UndefinedVariable(Seq<char>),
    Unclassified,
}

impl View for ErrorKind {
    type V = SpecErrorKind;

    open spec fn view(&self) -> SpecErrorKind {
        match self {
            ErrorKind::UnexpectedCharacter => SpecErrorKind::UnexpectedCharacter,
            ErrorKind::UnterminatedString => SpecErrorKind::UnterminatedString,
            ErrorKind::MalformedNumber => SpecErrorKind::MalformedNumber,
            ErrorKind::ExpectedExpression => SpecErrorKind::ExpectedExpression,
            ErrorKind::ExpectedToken(expected) => SpecErrorKind::ExpectedToken(expected@),
            ErrorKind::ExpectedIdentifier => SpecErrorKind::ExpectedIdentifier,
            ErrorKind::UndefinedVariable(name) => SpecErrorKind::UndefinedVariable(name@),
            ErrorKind::Unclassified => SpecErrorKind::Unclassified,
        }
    }
}

impl Clone for ErrorKind {
    fn clone(&self) -> (copy: Self)
        ensures
            copy == *self,
    {
        match self {
            ErrorKind::UnexpectedCharacter => ErrorKind::UnexpectedCharacter,
            ErrorKind::UnterminatedString => ErrorKind::UnterminatedString,
            ErrorKind::MalformedNumber => ErrorKind::MalformedNumber,
            ErrorKind::ExpectedExpression => ErrorKind::ExpectedExpression,
            ErrorKind::ExpectedToken(expected) => ErrorKind::ExpectedToken(expected.clone()),
            ErrorKind::ExpectedIdentifier => ErrorKind::ExpectedIdentifier,
            ErrorKind::UndefinedVariable(name) => ErrorKind::UndefinedVariable(name.clone()),
            ErrorKind::Unclassified => ErrorKind::Unclassified,
        }
    }
}

/// A diagnostic: what went wrong, on which line, at which lexeme (if one is
/// implicated), and the message for the reader.
#[derive(Debug, PartialEq)]
pub struct LoxError {
    pub kind: ErrorKind,
    pub line: usize,
    pub at: Option<String>,
    pub message: String,
}

/// The mathematical model of a [`LoxError`].
pub struct SpecLoxError {
    pub kind: SpecErrorKind,
    pub line: nat,
    pub at: Option<Seq<char>>,
    pub message: Seq<char>,
}

impl View for LoxError {
    type V = SpecLoxError;

    open spec fn view(&self) -> SpecLoxError {
        SpecLoxError {
            kind: self.kind@,
            line: self.line as nat,
            at: match self.at {
                Some(at) => Some(at@),
                None => None,
            },
            message: self.message@,
        }
    }
}

/// The one line that reports a diagnostic:
/// `[line L] Error C: M`, where `C` is empty when no lexeme is implicated and
/// the lexeme in single quotes otherwise.
pub open spec fn error_text(line: nat, at: Option<Seq<char>>, message: Seq<char>) -> Seq<char> {
    "[line "@ + decimal_text(line as int) + "] Error "@ + match at {
        Some(lexeme) => seq!['\''] + lexeme + seq!['\''],
        None => Seq::empty(),
    } + ": "@ + message
}

/// Renders a diagnostic as one line.
pub fn gen_error(line: usize, at: Option<String>, message: String) -> (text: String)
    ensures
        text@ == error_text(
            line as nat,
            match at {
                Some(lexeme) => Some(lexeme@),
                None => None,
            },
            message@,
        ),
{
    let mut text = String::from_str("[line ");
    push_usize(&mut text, line);
    text.append("] Error ");
    match at {
        Some(lexeme) => {
            text.push('\'');
            text.append(lexeme.as_str());
            text.push('\'');
            assert(text@ == "[line "@ + decimal_text(line as int) + "] Error "@ + (seq!['\'']
                + lexeme@ + seq!['\'']));
        },
        None => {
            assert(text@ == "[line "@ + decimal_text(line as int) + "] Error "@
                + Seq::<char>::empty());
        },
    }
    text.append(": ");
    text.append(message.as_str());
    text
}

impl LoxError {
    /// A diagnostic of no particular class.
    pub fn new(line: usize, at: Option<String>, message: &str) -> (error: Self)
        ensures
            error@ == (SpecLoxError {
                kind: SpecErrorKind::Unclassified,
                line: line as nat,
                at: match at {
                    Some(lexeme) => Some(lexeme@),
                    None => None,
                },
                message: message@,
            }),
    {
        LoxError { kind: ErrorKind::Unclassified, line, at, message: String::from_str(message) }
    }

    /// A diagnostic of the given class.
    pub fn with_kind(kind: ErrorKind, line: usize, at: Option<String>, message: &str) -> (error:
        Self)
        ensures
            error@ == (SpecLoxError {
                kind: kind@,
                line: line as nat,
                at: match at {
                    Some(lexeme) => Some(lexeme@),
                    None => None,
                },
                message: message@,
            }),
    {
        LoxError { kind, line, at, message: String::from_str(message) }
    }

    /// The line that reports this diagnostic.
    pub fn render(&self) -> (text: String)
        ensures
            text@ == error_text(self@.line, self@.at, self@.message),
    {
        let at = match &self.at {
            Some(lexeme) => Some(lexeme.clone()),
            None => None,
        };
        gen_error(self.line, at, self.message.clone())
    }
}

} // verus!
