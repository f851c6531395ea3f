//! Token kinds and the values that literals and expressions denote.

use vstd::prelude::*;
use vstd::string::*;
use crate::float::{Arithmetic, FloatHost};
use crate::text::{decimal_text, push_i64};

verus! {

/// The closed set of token kinds.
#[derive(Clone, Copy, Debug, PartialEq, Eq, Structural)]
pub enum TokenType {
    // Single-character tokens.
    LeftParen,
    RightParen,
    LeftBrace,
    RightBrace,
    Comma,
    Dot,
    Minus,
    Plus,
    Semicolon,
    Slash,
    Star,
    // One or two character tokens.
    Bang,
    BangEqual,
    Equal,
    EqualEqual,
    Greater,
    GreaterEqual,
    Less,
    LessEqual,
    // Literals.
    Identifier,
    String,
    Number,
    // Keywords.
    And,
    Class,
    Else,
    False,
    Fun,
    For,
    If,
    Nil,
    Or,
    Print,
    Return,
    Super,
    This,
    True,
    Var,
    While,
    Eof,
}

/// A literal of the source text, and equally a value at run time.
///
/// `Float` holds the IEEE 754 binary64 bit pattern of the number.
#[derive(Debug, PartialEq)]
pub enum Literal {
    Float(u64),
    Integer(i64),
    String(String),
    Bool(bool),
    Nil,
}

/// The mathematical model of a [`Literal`]: text is a sequence of characters.
pub enum SpecLiteral {
    Float(u64),
    Integer(i64),
    String(Seq<char>),
    Bool(bool),
    Nil,
}

impl View for Literal {
    type V = SpecLiteral;

    open spec fn view(&self) -> SpecLiteral {
        match self {
            Literal::Float(bits) => SpecLiteral::Float(*bits),
            Literal::Integer(i) => SpecLiteral::Integer(*i),
            Literal::String(s) => SpecLiteral::String(s@),
            Literal::Bool(b) => SpecLiteral::Bool(*b),
            Literal::Nil => SpecLiteral::Nil,
        }
    }
}

impl Clone for Literal {
    fn clone(&self) -> (copy: Self)
        ensures
            copy == *self,
    {
        match self {
            Literal::Float(bits) => Literal::Float(*bits),
            Literal::Integer(i) => Literal::Integer(*i),
            Literal::String(s) => Literal::String(s.clone()),
            Literal::Bool(b) => Literal::Bool(*b),
            Literal::Nil => Literal::Nil,
        }
    }
}

/// Whether `text` is a way to write `value`: a float as the host renders it,
/// an integer in decimal, a string as it is, and `true`, `false` or `none`.
pub open spec fn literal_text<P, A, R>(
    host: FloatHost<P, A, R>,
    value: SpecLiteral,
    text: Seq<char>,
) -> bool where P: Fn(String) -> u64, A: Fn(Arithmetic, u64, u64) -> u64, R: Fn(u64) -> String {
    match value {
        SpecLiteral::Bool(b) => text == if b {
            "true"@
        } else {
            "false"@
        },
        SpecLiteral::Float(bits) => host.renders(bits, text),
        SpecLiteral::Integer(i) => text == decimal_text(i as int),
        SpecLiteral::String(s) => text == s,
        SpecLiteral::Nil => text == "none"@,
    }
}

/// Writes `value` as `print` shows it.
pub fn text_of<P, A, R>(value: &Literal, host: &FloatHost<P, A, R>) -> (text: String) where
    P: Fn(String) -> u64,
    A: Fn(Arithmetic, u64, u64) -> u64,
    R: Fn(u64) -> String,

    requires
        host.can_render(),
    ensures
        literal_text(*host, value@, text@),
{
    match value {
        Literal::Bool(b) => if *b {
            String::from_str("true")
        } else {
            String::from_str("false")
        },
        Literal::Float(bits) => (host.render)(*bits),
        Literal::Integer(i) => {
            let mut text = String::new();
            push_i64(&mut text, *i);
            assert(text@ == decimal_text(*i as int));
            text
        },
        Literal::String(s) => s.clone(),
        Literal::Nil => String::from_str("none"),
    }
}

} // verus!
