//! Tokens: classified, positioned units of the source text.

use vstd::prelude::*;
use crate::token_type::{Literal, SpecLiteral, TokenType};

verus! {

/// One lexical unit: its kind, the exact text it was scanned from, the value
/// it denotes (for string and number literals), and the line it ends on.
#[derive(Debug, PartialEq)]
pub struct Token {
    pub ttype: TokenType,
    pub lexeme: String,
    pub literal: Literal,
    pub line: usize,
}

/// The mathematical model of a [`Token`].
pub struct SpecToken {
    pub ttype: TokenType,
    pub lexeme: Seq<char>,
    pub literal: SpecLiteral,
    pub line: nat,
}

impl View for Token {
    type V = SpecToken;

    open spec fn view(&self) -> SpecToken {
        SpecToken {
            ttype: self.ttype,
            lexeme: self.lexeme@,
            literal: self.literal@,
            line: self.line as nat,
        }
    }
}

impl Clone for Token {
    fn clone(&self) -> (copy: Self)
        ensures
            copy == *self,
    {
        Token {
            ttype: self.ttype,
            lexeme: self.lexeme.clone(),
            literal: self.literal.clone(),
            line: self.line,
        }
    }
}

impl Token {
    /// A token of the given parts.
    pub fn new(ttype: TokenType, lexeme: String, literal: Literal, line: usize) -> (token: Self)
        ensures
            token == (Token { ttype, lexeme, literal, line }),
    {
        Token { ttype, lexeme, literal, line }
    }
}

/// The models of a sequence of tokens, in order.
pub open spec fn token_views(tokens: Seq<Token>) -> Seq<SpecToken> {
    tokens.map_values(|t: Token| t@)
}

} // verus!
