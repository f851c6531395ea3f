//! The parser: tokens to syntax trees, by recursive descent.
//!
//! Each method of [`Parser`] computes what the rule of the grammar with the
//! same name yields at the cursor, and moves the cursor over the tokens
//! that the rule passes.

use vstd::prelude::*;
use vstd::string::*;
use crate::error::{ErrorKind, LoxError, SpecLoxError};
use crate::expression::{Expr, SpecExpr};
use crate::grammar::{
    check_at,
    continues,
    derives,
    lemma_expression_is_the_derivation,
    matches_at,
    parse_binary,
    parse_binary_rest,
    parse_declaration,
    parse_expression,
    parse_operand,
    parse_primary,
    parse_program,
    parse_statement,
    parse_terminated,
    parse_unary,
    parse_var_declaration,
    remaining,
    syntax_error,
    tier_looseness,
    token_at,
    Parsed,
    Tier,
};
use crate::statement::{statement_views, SpecStatement, Statement};
use crate::token::{token_views, SpecToken, Token};
use crate::token_type::{Literal, TokenType};

verus! {

/// Whether a computed expression or error is the one that a rule yields.
pub open spec fn agrees_expr(
    result: Result<Expr, LoxError>,
    expected: Result<SpecExpr, SpecLoxError>,
) -> bool {
    match result {
        Ok(expr) => expected == Ok::<SpecExpr, SpecLoxError>(expr@),
        Err(error) => expected == Err::<SpecExpr, SpecLoxError>(error@),
    }
}

/// Whether a computed statement or error is the one that a rule yields.
pub open spec fn agrees_statement(
    result: Result<Statement, LoxError>,
    expected: Result<SpecStatement, SpecLoxError>,
) -> bool {
    match result {
        Ok(statement) => expected == Ok::<SpecStatement, SpecLoxError>(statement@),
        Err(error) => expected == Err::<SpecStatement, SpecLoxError>(error@),
    }
}

/// Whether computed statements, or an error, are what a program yields.
pub open spec fn agrees_program(
    result: Result<Vec<Statement>, LoxError>,
    expected: Result<Seq<SpecStatement>, SpecLoxError>,
) -> bool {
    match result {
        Ok(statements) => expected == Ok::<Seq<SpecStatement>, SpecLoxError>(
            statement_views(statements@),
        ),
        Err(error) => expected == Err::<Seq<SpecStatement>, SpecLoxError>(error@),
    }
}

/// A cursor over a token sequence that ends with `Eof`.
#[derive(Debug)]
pub struct Parser {
    tokens: Vec<Token>,
    current: usize,
}

impl Parser {
    #[verifier::type_invariant]
    spec fn well_formed(&self) -> bool {
        &&& self.tokens.len() > 0
        &&& self.tokens@.last().ttype == TokenType::Eof
        &&& self.current < self.tokens.len()
    }

    /// The tokens that this parser reads.
    pub closed spec fn tokens(&self) -> Seq<SpecToken> {
        token_views(self.tokens@)
    }

    /// The index of the next token to read.
    pub closed spec fn position(&self) -> int {
        self.current as int
    }

    /// The parser reads the tokens that `before` read, and stands `consumed`
    /// tokens further.
    pub open spec fn moved(&self, before: Parser, consumed: nat) -> bool {
        &&& self.tokens() == before.tokens()
        &&& self.position() == before.position() + consumed
    }

    /// A parser at the start of `tokens`, which must end with `Eof`.
    pub fn new(tokens: Vec<Token>) -> (parser: Self)
        requires
            tokens.len() > 0,
            tokens@.last().ttype == TokenType::Eof,
        ensures
            parser.tokens() == token_views(tokens@),
            parser.position() == 0,
    {
        Parser { tokens, current: 0 }
    }

    /// Parses declarations up to `Eof`, where the parser then stands. The
    /// first syntax error ends the parse, and no statement is returned then.
    pub fn parse(&mut self) -> (result: Result<Vec<Statement>, LoxError>)
        ensures
            final(self).moved(
                *old(self),
                parse_program(old(self).tokens(), old(self).position()).consumed,
            ),
            agrees_program(result, parse_program(old(self).tokens(), old(self).position()).result),
            result is Ok ==> token_at(final(self).tokens(), final(self).position()).ttype
                == TokenType::Eof,
    {
        let ghost tokens = self.tokens();
        let ghost start = self.position();
        let mut statements: Vec<Statement> = Vec::new();
        while !self.is_at_end()
            invariant
                tokens == old(self).tokens(),
                start == old(self).position(),
                self.tokens() == tokens,
                start <= self.position(),
                ({
                    let rest = parse_program(tokens, self.position());
                    parse_program(tokens, start) == (Parsed {
                        result: match rest.result {
                            Ok(more) => Ok(statement_views(statements@) + more),
                            Err(error) => Err(error),
                        },
                        consumed: (self.position() - start + rest.consumed) as nat,
                    })
                }),
            decreases remaining(tokens, self.position()),
        {
            let ghost found = statement_views(statements@);
            proof {
                use_type_invariant(&*self);
            }
            let statement = self.declaration()?;
            proof {
                use_type_invariant(&*self);
                let more = parse_program(tokens, self.position()).result;
                if let Ok(more) = more {
                    assert(found + (seq![statement@] + more) == found.push(statement@) + more);
                }
                assert(statement_views(statements@.push(statement)) == found.push(statement@));
            }
            statements.push(statement);
        }
        proof {
            assert(statement_views(statements@) + Seq::<SpecStatement>::empty()
                == statement_views(statements@));
        }
        Ok(statements)
    }

    fn declaration(&mut self) -> (result: Result<Statement, LoxError>)
        ensures
            final(self).moved(
                *old(self),
                parse_declaration(old(self).tokens(), old(self).position()).consumed,
            ),
            agrees_statement(
                result,
                parse_declaration(old(self).tokens(), old(self).position()).result,
            ),
            result is Ok ==> final(self).position() > old(self).position(),
    {
        if self.match_type(TokenType::Var) {
            return self.var_declaration();
        }
        return self.statement();
    }

    fn var_declaration(&mut self) -> (result: Result<Statement, LoxError>)
        ensures
            final(self).moved(
                *old(self),
                parse_var_declaration(old(self).tokens(), old(self).position()).consumed,
            ),
            agrees_statement(
                result,
                parse_var_declaration(old(self).tokens(), old(self).position()).result,
            ),
    {
        let name = self.consume(
            TokenType::Identifier,
            ErrorKind::ExpectedIdentifier,
            "Expect variable name.",
        )?;
        let mut initializer: Option<Expr> = None;
        if self.match_type(TokenType::Equal) {
            initializer = Some(self.expression()?);
        }
        self.consume(
            TokenType::Semicolon,
            ErrorKind::ExpectedToken(String::from_str(";")),
            "Expect ';' after variable declaration.",
        )?;
        Ok(Statement::Var(name, initializer))
    }

    fn statement(&mut self) -> (result: Result<Statement, LoxError>)
        ensures
            final(self).moved(
                *old(self),
                parse_statement(old(self).tokens(), old(self).position()).consumed,
            ),
            agrees_statement(
                result,
                parse_statement(old(self).tokens(), old(self).position()).result,
            ),
    {
        if self.match_type(TokenType::Print) {
            return self.print_statement();
        }
        self.expression_statement()
    }

    fn expression_statement(&mut self) -> (result: Result<Statement, LoxError>)
        ensures
            ({
                let value = parse_terminated(
                    old(self).tokens(),
                    old(self).position(),
                    "Expect ';' after value."@,
                );
                &&& final(self).moved(*old(self), value.consumed)
                &&& match result {
                    Ok(statement) => value.result matches Ok(expr) && statement@
                        == SpecStatement::Expression(expr),
                    Err(error) => value.result == Err::<SpecExpr, SpecLoxError>(error@),
                }
            }),
    {
        let value = self.expression()?;
        self.consume(
            TokenType::Semicolon,
            ErrorKind::ExpectedToken(String::from_str(";")),
            "Expect ';' after value.",
        )?;
        Ok(Statement::Expression(Box::new(value)))
    }

    fn print_statement(&mut self) -> (result: Result<Statement, LoxError>)
        ensures
            ({
                let value = parse_terminated(
                    old(self).tokens(),
                    old(self).position(),
                    "Expect ';' after expression."@,
                );
                &&& final(self).moved(*old(self), value.consumed)
                &&& match result {
                    Ok(statement) => value.result matches Ok(expr) && statement@
                        == SpecStatement::Print(expr),
                    Err(error) => value.result == Err::<SpecExpr, SpecLoxError>(error@),
                }
            }),
    {
        let value = self.expression()?;
        self.consume(
            TokenType::Semicolon,
            ErrorKind::ExpectedToken(String::from_str(";")),
            "Expect ';' after expression.",
        )?;
        Ok(Statement::Print(Box::new(value)))
    }

    /// Parses one expression at the cursor.
    ///
    /// The tree is the derivation of the grammar from the tokens that the
    /// parser passes, and the parser stops before a token that is no binary
    /// operator.
    pub fn expression(&mut self) -> (result: Result<Expr, LoxError>)
        ensures
            final(self).moved(
                *old(self),
                parse_expression(old(self).tokens(), old(self).position()).consumed,
            ),
            agrees_expr(result, parse_expression(old(self).tokens(), old(self).position()).result),
            result matches Ok(expr) ==> {
                &&& derives(
                    old(self).tokens(),
                    old(self).position(),
                    (final(self).position() - old(self).position()) as nat,
                    expr@,
                    tier_looseness(Tier::Equality),
                )
                &&& !continues(
                    final(self).tokens(),
                    final(self).position(),
                    tier_looseness(Tier::Equality),
                )
            },
        decreases remaining(old(self).tokens(), old(self).position()), 3 * tier_looseness(
            Tier::Equality,
        ) + 2,
    {
        let result = self.equality();
        proof {
            if result is Ok {
                lemma_expression_is_the_derivation(
                    old(self).tokens(),
                    old(self).position(),
                    (self.position() - old(self).position()) as nat,
                    result->Ok_0@,
                );
            }
        }
        result
    }

    /// Parses one expression of the equality tier at the cursor.
    pub fn equality(&mut self) -> (result: Result<Expr, LoxError>)
        ensures
            final(self).moved(
                *old(self),
                parse_binary(old(self).tokens(), old(self).position(), Tier::Equality).consumed,
            ),
            agrees_expr(
                result,
                parse_binary(old(self).tokens(), old(self).position(), Tier::Equality).result,
            ),
        decreases remaining(old(self).tokens(), old(self).position()), 3 * tier_looseness(
            Tier::Equality,
        ) + 1,
    {
        let ghost tokens = self.tokens();
        let ghost start = self.position();
        proof {
            use_type_invariant(&*self);
        }
        let mut expr = self.comparison()?;
        loop
            invariant
                tokens == old(self).tokens(),
                start == old(self).position(),
                self.tokens() == tokens,
                start <= self.position(),
                start < tokens.len(),
                Self::folding(tokens, start, self.position(), Tier::Equality, expr@),
            ensures
                self.moved(*old(self), parse_binary(tokens, start, Tier::Equality).consumed),
                parse_binary(tokens, start, Tier::Equality).result == Ok::<
                    SpecExpr,
                    SpecLoxError,
                >(expr@),
            decreases remaining(tokens, self.position()),
        {
            let ghost here = self.position();
            if !self.match_types(vec![TokenType::BangEqual, TokenType::EqualEqual]) {
                break ;
            }
            let operator = self.previous();
            proof {
                assert(parse_operand(tokens, here + 1, Tier::Equality)
                    == parse_binary(tokens, here + 1, Tier::Comparison));
            }
            let right = self.comparison()?;
            expr = Expr::Binary(Box::new(expr), operator, Box::new(right));
        }
        Ok(expr)
    }

    fn comparison(&mut self) -> (result: Result<Expr, LoxError>)
        ensures
            final(self).moved(
                *old(self),
                parse_binary(old(self).tokens(), old(self).position(), Tier::Comparison).consumed,
            ),
            agrees_expr(
                result,
                parse_binary(old(self).tokens(), old(self).position(), Tier::Comparison).result,
            ),
        decreases remaining(old(self).tokens(), old(self).position()), 3 * tier_looseness(
            Tier::Comparison,
        ) + 1,
    {
        let ghost tokens = self.tokens();
        let ghost start = self.position();
        proof {
            use_type_invariant(&*self);
        }
        let mut expr = self.term()?;
        loop
            invariant
                tokens == old(self).tokens(),
                start == old(self).position(),
                self.tokens() == tokens,
                start <= self.position(),
                start < tokens.len(),
                Self::folding(tokens, start, self.position(), Tier::Comparison, expr@),
            ensures
                self.moved(*old(self), parse_binary(tokens, start, Tier::Comparison).consumed),
                parse_binary(tokens, start, Tier::Comparison).result == Ok::<
                    SpecExpr,
                    SpecLoxError,
                >(expr@),
            decreases remaining(tokens, self.position()),
        {
            let ghost here = self.position();
            if !self.match_types(
                vec![
                    TokenType::Greater,
                    TokenType::GreaterEqual,
                    TokenType::Less,
                    TokenType::LessEqual,
                ],
            ) {
                break ;
            }
            let operator = self.previous();
            proof {
                assert(parse_operand(tokens, here + 1, Tier::Comparison)
                    == parse_binary(tokens, here + 1, Tier::Term));
            }
            let right = self.term()?;
            expr = Expr::Binary(Box::new(expr), operator, Box::new(right));
        }
        Ok(expr)
    }

    fn term(&mut self) -> (result: Result<Expr, LoxError>)
        ensures
            final(self).moved(
                *old(self),
                parse_binary(old(self).tokens(), old(self).position(), Tier::Term).consumed,
            ),
            agrees_expr(
                result,
                parse_binary(old(self).tokens(), old(self).position(), Tier::Term).result,
            ),
        decreases remaining(old(self).tokens(), old(self).position()), 3 * tier_looseness(
            Tier::Term,
        ) + 1,
    {
        let ghost tokens = self.tokens();
        let ghost start = self.position();
        proof {
            use_type_invariant(&*self);
        }
        let mut expr = self.factor()?;
        loop
            invariant
                tokens == old(self).tokens(),
                start == old(self).position(),
                self.tokens() == tokens,
                start <= self.position(),
                start < tokens.len(),
                Self::folding(tokens, start, self.position(), Tier::Term, expr@),
            ensures
                self.moved(*old(self), parse_binary(tokens, start, Tier::Term).consumed),
                parse_binary(tokens, start, Tier::Term).result == Ok::<SpecExpr, SpecLoxError>(
                    expr@,
                ),
            decreases remaining(tokens, self.position()),
        {
            let ghost here = self.position();
            if !self.match_types(vec![TokenType::Minus, TokenType::Plus]) {
                break ;
            }
            let operator = self.previous();
            proof {
                assert(parse_operand(tokens, here + 1, Tier::Term)
                    == parse_binary(tokens, here + 1, Tier::Factor));
            }
            let right = self.factor()?;
            expr = Expr::Binary(Box::new(expr), operator, Box::new(right));
        }
        Ok(expr)
    }

    fn factor(&mut self) -> (result: Result<Expr, LoxError>)
        ensures
            final(self).moved(
                *old(self),
                parse_binary(old(self).tokens(), old(self).position(), Tier::Factor).consumed,
            ),
            agrees_expr(
                result,
                parse_binary(old(self).tokens(), old(self).position(), Tier::Factor).result,
            ),
        decreases remaining(old(self).tokens(), old(self).position()), 3 * tier_looseness(
            Tier::Factor,
        ) + 1,
    {
        let ghost tokens = self.tokens();
        let ghost start = self.position();
        proof {
            use_type_invariant(&*self);
        }
        let mut expr = self.unary()?;
        loop
            invariant
                tokens == old(self).tokens(),
                start == old(self).position(),
                self.tokens() == tokens,
                start <= self.position(),
                start < tokens.len(),
                Self::folding(tokens, start, self.position(), Tier::Factor, expr@),
            ensures
                self.moved(*old(self), parse_binary(tokens, start, Tier::Factor).consumed),
                parse_binary(tokens, start, Tier::Factor).result == Ok::<SpecExpr, SpecLoxError>(
                    expr@,
                ),
            decreases remaining(tokens, self.position()),
        {
            let ghost here = self.position();
            if !self.match_types(vec![TokenType::Slash, TokenType::Star]) {
                break ;
            }
            let operator = self.previous();
            proof {
                assert(parse_operand(tokens, here + 1, Tier::Factor)
                    == parse_unary(tokens, here + 1));
            }
            let right = self.unary()?;
            expr = Expr::Binary(Box::new(expr), operator, Box::new(right));
        }
        Ok(expr)
    }

    /// The state of a tier's loop: the rule that started at `start` yields
    /// what follows the operand `left` at `pos`, after the tokens between.
    spec fn folding(tokens: Seq<SpecToken>, start: int, pos: int, tier: Tier, left: SpecExpr)
        -> bool {
        let rest = parse_binary_rest(tokens, pos, tier, left);
        parse_binary(tokens, start, tier) == (Parsed {
            result: rest.result,
            consumed: (pos - start + rest.consumed) as nat,
        })
    }

    fn unary(&mut self) -> (result: Result<Expr, LoxError>)
        ensures
            final(self).moved(
                *old(self),
                parse_unary(old(self).tokens(), old(self).position()).consumed,
            ),
            agrees_expr(result, parse_unary(old(self).tokens(), old(self).position()).result),
        decreases remaining(old(self).tokens(), old(self).position()), 1nat,
    {
        proof {
            use_type_invariant(&*self);
        }
        if self.match_types(vec![TokenType::Bang, TokenType::Minus]) {
            let operator = self.previous();
            let right = self.unary()?;
            return Ok(Expr::Unary(operator, Box::new(right)));
        }
        self.primary()
    }

    fn primary(&mut self) -> (result: Result<Expr, LoxError>)
        ensures
            final(self).moved(
                *old(self),
                parse_primary(old(self).tokens(), old(self).position()).consumed,
            ),
            agrees_expr(result, parse_primary(old(self).tokens(), old(self).position()).result),
        decreases remaining(old(self).tokens(), old(self).position()), 0nat,
    {
        proof {
            use_type_invariant(&*self);
        }
        if self.match_type(TokenType::False) {
            return Ok(Expr::Literal(Literal::Bool(false)));
        }
        if self.match_type(TokenType::True) {
            return Ok(Expr::Literal(Literal::Bool(true)));
        }
        if self.match_type(TokenType::Nil) {
            return Ok(Expr::Literal(Literal::Nil));
        }
        if self.match_types(vec![TokenType::Number, TokenType::String]) {
            return Ok(Expr::Literal(self.previous().literal));
        }
        if self.match_type(TokenType::Identifier) {
            return Ok(Expr::Variable(self.previous()));
        }
        if self.match_type(TokenType::LeftParen) {
            let expr = self.expression()?;
            self.consume(
                TokenType::RightParen,
                ErrorKind::ExpectedToken(String::from_str(")")),
                "Expect ')' after expression.",
            )?;
            return Ok(Expr::Grouping(Box::new(expr)));
        }
        let found = self.peek();
        Err(
            LoxError::with_kind(
                ErrorKind::ExpectedExpression,
                found.line,
                Some(found.lexeme),
                "Expect expression.",
            ),
        )
    }

    /// Moves over the token at the cursor if it is of the given kind;
    /// otherwise reports it, with the given complaint.
    fn consume(&mut self, ttype: TokenType, kind: ErrorKind, message: &str) -> (result: Result<
        Token,
        LoxError,
    >)
        ensures
            final(self).tokens() == old(self).tokens(),
            ({
                let found = token_at(old(self).tokens(), old(self).position());
                if check_at(old(self).tokens(), old(self).position(), ttype) {
                    &&& final(self).position() == old(self).position() + 1
                    &&& result matches Ok(token)
                    &&& token@ == found
                } else {
                    &&& final(self).position() == old(self).position()
                    &&& result matches Err(error)
                    &&& error@ == syntax_error(kind@, found, message@)
                }
            }),
    {
        if self.check(ttype) {
            return Ok(self.advance());
        }
        let found = self.peek();
        Err(LoxError::with_kind(kind, found.line, Some(found.lexeme), message))
    }

    fn match_type(&mut self, ttype: TokenType) -> (matched: bool)
        ensures
            matched == check_at(old(self).tokens(), old(self).position(), ttype),
            final(self).moved(
                *old(self),
                if matched {
                    1nat
                } else {
                    0nat
                },
            ),
    {
        if self.check(ttype) {
            self.advance();
            return true;
        }
        false
    }

    fn match_types(&mut self, types: Vec<TokenType>) -> (matched: bool)
        ensures
            matched == matches_at(old(self).tokens(), old(self).position(), types@),
            final(self).moved(
                *old(self),
                if matched {
                    1nat
                } else {
                    0nat
                },
            ),
    {
        let mut i: usize = 0;
        while i < types.len()
            invariant
                i <= types.len(),
                *self == *old(self),
                forall|k: int| 0 <= k < i ==> !check_at(self.tokens(), self.position(), types[k]),
            decreases types.len() - i,
        {
            if self.check(types[i]) {
                self.advance();
                return true;
            }
            i += 1;
        }
        false
    }

    fn check(&self, ttype: TokenType) -> (r: bool)
        ensures
            r == check_at(self.tokens(), self.position(), ttype),
    {
        if self.is_at_end() {
            return false;
        }
        self.peek().ttype == ttype
    }

    /// Moves over the token at the cursor, which is not `Eof`, and returns
    /// it.
    fn advance(&mut self) -> (token: Token)
        requires
            token_at(old(self).tokens(), old(self).position()).ttype != TokenType::Eof,
        ensures
            final(self).moved(*old(self), 1),
            token@ == token_at(old(self).tokens(), old(self).position()),
    {
        proof {
            use_type_invariant(&*self);
        }
        if !self.is_at_end() {
            self.current = self.current + 1;
        }
        self.previous()
    }

    fn peek(&self) -> (token: Token)
        ensures
            token@ == token_at(self.tokens(), self.position()),
    {
        proof {
            use_type_invariant(self);
        }
        self.tokens[self.current].clone()
    }

    fn previous(&self) -> (token: Token)
        requires
            self.position() > 0,
        ensures
            token@ == token_at(self.tokens(), self.position() - 1),
    {
        proof {
            use_type_invariant(self);
        }
        self.tokens[self.current - 1].clone()
    }

    fn is_at_end(&self) -> (r: bool)
        ensures
            r == (token_at(self.tokens(), self.position()).ttype == TokenType::Eof),
    {
        self.peek().ttype == TokenType::Eof
    }
}

} // verus!
