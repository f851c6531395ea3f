//! The grammar of the language, from the loosest binding to the tightest:
//!
//! ```text
//! program     -> declaration* Eof
//! declaration -> "var" Identifier ( "=" expression )? ";" | statement
//! statement   -> "print" expression ";" | expression ";"
//! expression  -> equality
//! equality    -> comparison ( ( "!=" | "==" ) comparison )*
//! comparison  -> term ( ( ">" | ">=" | "<" | "<=" ) term )*
//! term        -> factor ( ( "-" | "+" ) factor )*
//! factor      -> unary ( ( "/" | "*" ) unary )*
//! unary       -> ( "!" | "-" ) unary | primary
//! primary     -> "false" | "true" | "nil" | Number | String | Identifier
//!              | "(" expression ")"
//! ```
//!
//! The `parse_*` functions say what each rule yields at a position of a
//! token sequence: a tree or the first syntax error, and the number of
//! tokens passed. The laws after them say that the rules are sound and
//! complete: `expression` yields a tree exactly when the tree is the
//! derivation of the grammar from the tokens passed, that is, when they
//! spell it ([`spells`]) and its operations nest by precedence and to the
//! left ([`well_nested`]).

use vstd::prelude::*;
use crate::error::{SpecErrorKind, SpecLoxError};
use crate::expression::SpecExpr;
use crate::statement::SpecStatement;
use crate::token::SpecToken;
use crate::token_type::{SpecLiteral, TokenType};

verus! {

/// The token at `pos`. Beyond the sequence there is only `Eof`.
pub open spec fn token_at(tokens: Seq<SpecToken>, pos: int) -> SpecToken {
    if 0 <= pos < tokens.len() {
        tokens[pos]
    } else {
        SpecToken {
            ttype: TokenType::Eof,
            lexeme: Seq::empty(),
            literal: SpecLiteral::Nil,
            line: 0,
        }
    }
}

/// Whether the token at `pos` is of the given kind and is not `Eof`.
pub open spec fn check_at(tokens: Seq<SpecToken>, pos: int, ttype: TokenType) -> bool {
    token_at(tokens, pos).ttype != TokenType::Eof && token_at(tokens, pos).ttype == ttype
}

/// The number of tokens from `pos` to the end.
pub open spec fn remaining(tokens: Seq<SpecToken>, pos: int) -> nat {
    if pos < tokens.len() {
        (tokens.len() - pos) as nat
    } else {
        0
    }
}

/// The diagnostic for a syntax error found at `token`.
pub open spec fn syntax_error(kind: SpecErrorKind, token: SpecToken, message: Seq<char>)
    -> SpecLoxError {
    SpecLoxError { kind, line: token.line, at: Some(token.lexeme), message }
}

/// What a rule yields: a tree or the first error, and how many tokens the
/// parser moved over on the way.
pub struct Parsed<T> {
    pub result: Result<T, SpecLoxError>,
    pub consumed: nat,
}

/// The four tiers of left-associative binary operators.
#[derive(Clone, Copy, Debug, PartialEq, Eq, Structural)]
pub enum Tier {
    Equality,
    Comparison,
    Term,
    Factor,
}

/// The operators of a tier.
pub open spec fn tier_operators(tier: Tier) -> Seq<TokenType> {
    match tier {
        Tier::Equality => seq![TokenType::BangEqual, TokenType::EqualEqual],
        Tier::Comparison => seq![
            TokenType::Greater,
            TokenType::GreaterEqual,
            TokenType::Less,
            TokenType::LessEqual,
        ],
        Tier::Term => seq![TokenType::Minus, TokenType::Plus],
        Tier::Factor => seq![TokenType::Slash, TokenType::Star],
    }
}

/// Whether the token at `pos` is one of `types` and is not `Eof`.
pub open spec fn matches_at(tokens: Seq<SpecToken>, pos: int, types: Seq<TokenType>) -> bool {
    token_at(tokens, pos).ttype != TokenType::Eof && types.contains(token_at(tokens, pos).ttype)
}

/// How loosely a binary operator binds: 2 for the factor tier, 3 for the
/// term tier, 4 for the comparison tier, 5 for the equality tier, and 6 for
/// a token that is no binary operator.
pub open spec fn operator_looseness(ttype: TokenType) -> nat {
    match ttype {
        TokenType::Slash | TokenType::Star => 2,
        TokenType::Minus | TokenType::Plus => 3,
        TokenType::Greater | TokenType::GreaterEqual | TokenType::Less | TokenType::LessEqual => 4,
        TokenType::BangEqual | TokenType::EqualEqual => 5,
        _ => 6,
    }
}

/// The looseness of the binary operators of a tier. The measures of the
/// rules are multiples of it, spaced so that each rule ranks above the
/// rules it starts with.
pub open spec fn tier_looseness(tier: Tier) -> nat {
    match tier {
        Tier::Factor => 2,
        Tier::Term => 3,
        Tier::Comparison => 4,
        Tier::Equality => 5,
    }
}

/// `primary` at `pos`.
pub open spec fn parse_primary(tokens: Seq<SpecToken>, pos: int) -> Parsed<SpecExpr>
    decreases remaining(tokens, pos), 0nat,
{
    let token = token_at(tokens, pos);
    let literal = |value: SpecLiteral|
        Parsed { result: Ok(SpecExpr::Literal(value)), consumed: 1 };
    match token.ttype {
        TokenType::False => literal(SpecLiteral::Bool(false)),
        TokenType::True => literal(SpecLiteral::Bool(true)),
        TokenType::Nil => literal(SpecLiteral::Nil),
        TokenType::Number => literal(token.literal),
        TokenType::String => literal(token.literal),
        TokenType::Identifier => Parsed { result: Ok(SpecExpr::Variable(token)), consumed: 1 },
        TokenType::LeftParen => {
            let inner = parse_binary(tokens, pos + 1, Tier::Equality);
            let after = pos + 1 + inner.consumed;
            match inner.result {
                Err(error) => Parsed { result: Err(error), consumed: 1 + inner.consumed },
                Ok(expr) => if check_at(tokens, after, TokenType::RightParen) {
                    Parsed {
                        result: Ok(SpecExpr::Grouping(Box::new(expr))),
                        consumed: inner.consumed + 2,
                    }
                } else {
                    Parsed {
                        result: Err(
                            syntax_error(
                                SpecErrorKind::ExpectedToken(")"@),
                                token_at(tokens, after),
                                "Expect ')' after expression."@,
                            ),
                        ),
                        consumed: 1 + inner.consumed,
                    }
                },
            }
        },
        _ => Parsed {
            result: Err(
                syntax_error(SpecErrorKind::ExpectedExpression, token, "Expect expression."@),
            ),
            consumed: 0,
        },
    }
}

/// `unary` at `pos`.
pub open spec fn parse_unary(tokens: Seq<SpecToken>, pos: int) -> Parsed<SpecExpr>
    decreases remaining(tokens, pos), 1nat,
{
    if matches_at(tokens, pos, seq![TokenType::Bang, TokenType::Minus]) {
        let operand = parse_unary(tokens, pos + 1);
        Parsed {
            result: match operand.result {
                Ok(expr) => Ok(SpecExpr::Unary(token_at(tokens, pos), Box::new(expr))),
                Err(error) => Err(error),
            },
            consumed: 1 + operand.consumed,
        }
    } else {
        parse_primary(tokens, pos)
    }
}

/// An operand of the given tier at `pos`: the rule of the next tighter tier.
pub open spec fn parse_operand(tokens: Seq<SpecToken>, pos: int, tier: Tier) -> Parsed<SpecExpr>
    decreases remaining(tokens, pos), (3 * tier_looseness(tier) - 1) as nat,
{
    match tier {
        Tier::Equality => parse_binary(tokens, pos, Tier::Comparison),
        Tier::Comparison => parse_binary(tokens, pos, Tier::Term),
        Tier::Term => parse_binary(tokens, pos, Tier::Factor),
        Tier::Factor => parse_unary(tokens, pos),
    }
}

/// What follows the operand `left` of the given tier at `pos`: operators of
/// the tier, each with its right operand, folded to the left.
pub open spec fn parse_binary_rest(tokens: Seq<SpecToken>, pos: int, tier: Tier, left: SpecExpr)
    -> Parsed<SpecExpr>
    decreases remaining(tokens, pos), 3 * tier_looseness(tier),
{
    if matches_at(tokens, pos, tier_operators(tier)) {
        let right = parse_operand(tokens, pos + 1, tier);
        match right.result {
            Err(error) => Parsed { result: Err(error), consumed: 1 + right.consumed },
            Ok(expr) => {
                let folded = SpecExpr::Binary(
                    Box::new(left),
                    token_at(tokens, pos),
                    Box::new(expr),
                );
                let rest = parse_binary_rest(tokens, pos + 1 + right.consumed, tier, folded);
                Parsed { result: rest.result, consumed: 1 + right.consumed + rest.consumed }
            },
        }
    } else {
        Parsed { result: Ok(left), consumed: 0 }
    }
}

/// The rule of the given tier at `pos`.
pub open spec fn parse_binary(tokens: Seq<SpecToken>, pos: int, tier: Tier) -> Parsed<SpecExpr>
    decreases remaining(tokens, pos), 3 * tier_looseness(tier) + 1,
{
    let first = parse_operand(tokens, pos, tier);
    match first.result {
        Err(error) => first,
        Ok(left) => {
            let rest = parse_binary_rest(tokens, pos + first.consumed, tier, left);
            Parsed { result: rest.result, consumed: first.consumed + rest.consumed }
        },
    }
}

/// `expression` at `pos`.
pub open spec fn parse_expression(tokens: Seq<SpecToken>, pos: int) -> Parsed<SpecExpr> {
    parse_binary(tokens, pos, Tier::Equality)
}

/// An expression and the `;` that closes it, at `pos`; `message` is the
/// complaint when the `;` is missing.
pub open spec fn parse_terminated(tokens: Seq<SpecToken>, pos: int, message: Seq<char>) -> Parsed<
    SpecExpr,
> {
    let value = parse_expression(tokens, pos);
    let after = pos + value.consumed;
    match value.result {
        Err(error) => value,
        Ok(expr) => if check_at(tokens, after, TokenType::Semicolon) {
            Parsed { result: Ok(expr), consumed: value.consumed + 1 }
        } else {
            Parsed {
                result: Err(
                    syntax_error(
                        SpecErrorKind::ExpectedToken(";"@),
                        token_at(tokens, after),
                        message,
                    ),
                ),
                consumed: value.consumed,
            }
        },
    }
}

/// The rest of a `var` declaration, after the keyword, at `pos`.
pub open spec fn parse_var_declaration(tokens: Seq<SpecToken>, pos: int) -> Parsed<SpecStatement> {
    if !check_at(tokens, pos, TokenType::Identifier) {
        Parsed {
            result: Err(
                syntax_error(
                    SpecErrorKind::ExpectedIdentifier,
                    token_at(tokens, pos),
                    "Expect variable name."@,
                ),
            ),
            consumed: 0,
        }
    } else {
        let name = token_at(tokens, pos);
        let message = "Expect ';' after variable declaration."@;
        if check_at(tokens, pos + 1, TokenType::Equal) {
            let value = parse_terminated(tokens, pos + 2, message);
            Parsed {
                result: match value.result {
                    Ok(expr) => Ok(SpecStatement::Var(name, Some(expr))),
                    Err(error) => Err(error),
                },
                consumed: 2 + value.consumed,
            }
        } else if check_at(tokens, pos + 1, TokenType::Semicolon) {
            Parsed { result: Ok(SpecStatement::Var(name, None)), consumed: 2 }
        } else {
            Parsed {
                result: Err(
                    syntax_error(
                        SpecErrorKind::ExpectedToken(";"@),
                        token_at(tokens, pos + 1),
                        message,
                    ),
                ),
                consumed: 1,
            }
        }
    }
}

/// `statement` at `pos`.
pub open spec fn parse_statement(tokens: Seq<SpecToken>, pos: int) -> Parsed<SpecStatement> {
    if check_at(tokens, pos, TokenType::Print) {
        let value = parse_terminated(tokens, pos + 1, "Expect ';' after expression."@);
        Parsed {
            result: match value.result {
                Ok(expr) => Ok(SpecStatement::Print(expr)),
                Err(error) => Err(error),
            },
            consumed: 1 + value.consumed,
        }
    } else {
        let value = parse_terminated(tokens, pos, "Expect ';' after value."@);
        Parsed {
            result: match value.result {
                Ok(expr) => Ok(SpecStatement::Expression(expr)),
                Err(error) => Err(error),
            },
            consumed: value.consumed,
        }
    }
}

/// `declaration` at `pos`.
pub open spec fn parse_declaration(tokens: Seq<SpecToken>, pos: int) -> Parsed<SpecStatement> {
    if check_at(tokens, pos, TokenType::Var) {
        let declared = parse_var_declaration(tokens, pos + 1);
        Parsed { result: declared.result, consumed: 1 + declared.consumed }
    } else {
        parse_statement(tokens, pos)
    }
}

/// The declarations from `pos` up to `Eof`, or the first syntax error.
pub open spec fn parse_program(tokens: Seq<SpecToken>, pos: int) -> Parsed<Seq<SpecStatement>>
    decreases remaining(tokens, pos),
{
    if token_at(tokens, pos).ttype == TokenType::Eof {
        Parsed { result: Ok(Seq::empty()), consumed: 0 }
    } else {
        let first = parse_declaration(tokens, pos);
        match first.result {
            Err(error) => Parsed { result: Err(error), consumed: first.consumed },
            Ok(statement) => {
                let rest = parse_program(tokens, pos + first.consumed);
                Parsed {
                    result: match rest.result {
                        Ok(more) => Ok(seq![statement] + more),
                        Err(error) => Err(error),
                    },
                    consumed: first.consumed + rest.consumed,
                }
            },
        }
    }
}

/// How loosely the operation at the root of an expression binds: 0 for a
/// literal, a variable or a group, 1 for a unary operation, and the
/// looseness of its operator for a binary operation. What no rule yields
/// ranks 6.
pub open spec fn looseness(expr: SpecExpr) -> nat {
    match expr {
        SpecExpr::Literal(_) => 0,
        SpecExpr::Variable(_) => 0,
        SpecExpr::Grouping(_) => 0,
        SpecExpr::Unary(_, _) => 1,
        SpecExpr::Binary(_, operator, _) => operator_looseness(operator.ttype),
        SpecExpr::Assign(_, _) => 6,
    }
}

/// Whether an expression is nested as the grammar nests: the operand of a
/// unary operation is unary or primary, the left operand of a binary
/// operation binds at least as tightly as the operation, and the right
/// operand binds tighter. Inside a group anything well nested may stand.
pub open spec fn well_nested(expr: SpecExpr) -> bool
    decreases expr,
{
    match expr {
        SpecExpr::Literal(_) => true,
        SpecExpr::Variable(_) => true,
        SpecExpr::Grouping(inner) => well_nested(*inner),
        SpecExpr::Unary(operator, operand) => {
            &&& operator.ttype == TokenType::Bang || operator.ttype == TokenType::Minus
            &&& well_nested(*operand)
            &&& looseness(*operand) <= 1
        },
        SpecExpr::Binary(left, operator, right) => {
            &&& looseness(expr) <= 5
            &&& well_nested(*left)
            &&& well_nested(*right)
            &&& looseness(*left) <= looseness(expr)
            &&& looseness(*right) < looseness(expr)
        },
        SpecExpr::Assign(_, _) => false,
    }
}

/// The number of tokens that spell an expression.
pub open spec fn width(expr: SpecExpr) -> nat
    decreases expr,
{
    match expr {
        SpecExpr::Literal(_) => 1,
        SpecExpr::Variable(_) => 1,
        SpecExpr::Grouping(inner) => width(*inner) + 2,
        SpecExpr::Unary(_, operand) => 1 + width(*operand),
        SpecExpr::Binary(left, _, right) => width(*left) + 1 + width(*right),
        SpecExpr::Assign(_, value) => 2 + width(*value),
    }
}

/// Whether `token` writes the literal `value`.
pub open spec fn writes_literal(token: SpecToken, value: SpecLiteral) -> bool {
    match token.ttype {
        TokenType::False => value == SpecLiteral::Bool(false),
        TokenType::True => value == SpecLiteral::Bool(true),
        TokenType::Nil => value == SpecLiteral::Nil,
        TokenType::Number => value == token.literal,
        TokenType::String => value == token.literal,
        _ => false,
    }
}

/// Whether `tokens`, read from left to right, spell `expr`: a literal or a
/// variable is one token, a group stands between parentheses, a unary
/// operator stands before its operand and a binary one between its
/// operands.
pub open spec fn spells(expr: SpecExpr, tokens: Seq<SpecToken>) -> bool
    decreases expr,
{
    &&& tokens.len() == width(expr)
    &&& match expr {
        SpecExpr::Literal(value) => writes_literal(tokens[0], value),
        SpecExpr::Variable(name) => tokens[0] == name && name.ttype == TokenType::Identifier,
        SpecExpr::Grouping(inner) => {
            &&& tokens[0].ttype == TokenType::LeftParen
            &&& tokens.last().ttype == TokenType::RightParen
            &&& spells(*inner, tokens.subrange(1, tokens.len() - 1))
        },
        SpecExpr::Unary(operator, operand) => {
            &&& tokens[0] == operator
            &&& spells(*operand, tokens.subrange(1, tokens.len() as int))
        },
        SpecExpr::Binary(left, operator, right) => {
            &&& spells(*left, tokens.subrange(0, width(*left) as int))
            &&& tokens[width(*left) as int] == operator
            &&& spells(*right, tokens.subrange(width(*left) as int + 1, tokens.len() as int))
        },
        SpecExpr::Assign(_, _) => false,
    }
}

/// Whether `expr` is a derivation of the grammar from the `consumed` tokens
/// at `pos`, by a rule that binds no looser than `loosest`.
pub open spec fn derives(
    tokens: Seq<SpecToken>,
    pos: int,
    consumed: nat,
    expr: SpecExpr,
    loosest: nat,
) -> bool {
    &&& 0 <= pos
    &&& pos + consumed <= tokens.len()
    &&& spells(expr, tokens.subrange(pos, pos + consumed))
    &&& well_nested(expr)
    &&& looseness(expr) <= loosest
}

/// Whether the token at `pos` is a binary operator that binds no looser than
/// `loosest`: one that a rule of that looseness would go on with.
pub open spec fn continues(tokens: Seq<SpecToken>, pos: int, loosest: nat) -> bool {
    operator_looseness(token_at(tokens, pos).ttype) <= loosest
}

/// The operators of a tier are the tokens of the tier's looseness.
pub proof fn lemma_tier_operators(tier: Tier, ttype: TokenType)
    ensures
        tier_operators(tier).contains(ttype) <==> operator_looseness(ttype) == tier_looseness(
            tier,
        ),
{
    let operators = tier_operators(tier);
    if operators.contains(ttype) {
        let i = choose|i: int| 0 <= i < operators.len() && operators[i] == ttype;
        assert(0 <= i < 4);
    }
    if operator_looseness(ttype) == tier_looseness(tier) {
        assert(operators[0] == ttype || operators[1] == ttype || (tier == Tier::Comparison && (
            operators[2] == ttype || operators[3] == ttype)));
    }
}

/// A rule goes on at `pos` exactly when an operator of its tier stands
/// there.
pub proof fn lemma_matches_tier(tokens: Seq<SpecToken>, pos: int, tier: Tier)
    ensures
        matches_at(tokens, pos, tier_operators(tier)) <==> operator_looseness(
            token_at(tokens, pos).ttype,
        ) == tier_looseness(tier),
{
    lemma_tier_operators(tier, token_at(tokens, pos).ttype);
}

/// A unary operator stands at `pos` exactly when `!` or `-` stands there.
pub proof fn lemma_matches_unary(tokens: Seq<SpecToken>, pos: int)
    ensures
        matches_at(tokens, pos, seq![TokenType::Bang, TokenType::Minus]) <==> (token_at(
            tokens,
            pos,
        ).ttype == TokenType::Bang || token_at(tokens, pos).ttype == TokenType::Minus),
{
    let operators = seq![TokenType::Bang, TokenType::Minus];
    let ttype = token_at(tokens, pos).ttype;
    if operators.contains(ttype) {
        let i = choose|i: int| 0 <= i < operators.len() && operators[i] == ttype;
        assert(i == 0 || i == 1);
    }
    assert(operators[0] == TokenType::Bang && operators[1] == TokenType::Minus);
}

/// Soundness of `primary`: the tree it yields is a derivation from the
/// tokens it passed.
pub proof fn lemma_primary_derives(tokens: Seq<SpecToken>, pos: int)
    requires
        0 <= pos,
        parse_primary(tokens, pos).result is Ok,
    ensures
        derives(
            tokens,
            pos,
            parse_primary(tokens, pos).consumed,
            parse_primary(tokens, pos).result->Ok_0,
            0,
        ),
    decreases remaining(tokens, pos), 0nat,
{
    let token = token_at(tokens, pos);
    let parsed = parse_primary(tokens, pos);
    if token.ttype == TokenType::LeftParen {
        let inner = parse_binary(tokens, pos + 1, Tier::Equality);
        lemma_binary_derives(tokens, pos + 1, Tier::Equality);
        let spelling = tokens.subrange(pos, pos + parsed.consumed);
        assert(spelling.subrange(1, spelling.len() - 1) == tokens.subrange(
            pos + 1,
            pos + 1 + inner.consumed,
        ));
    }
}

/// Soundness of `unary`: the tree it yields is a derivation from the tokens
/// it passed.
pub proof fn lemma_unary_derives(tokens: Seq<SpecToken>, pos: int)
    requires
        0 <= pos,
        parse_unary(tokens, pos).result is Ok,
    ensures
        derives(
            tokens,
            pos,
            parse_unary(tokens, pos).consumed,
            parse_unary(tokens, pos).result->Ok_0,
            1,
        ),
    decreases remaining(tokens, pos), 1nat,
{
    let parsed = parse_unary(tokens, pos);
    lemma_matches_unary(tokens, pos);
    if matches_at(tokens, pos, seq![TokenType::Bang, TokenType::Minus]) {
        let operand = parse_unary(tokens, pos + 1);
        lemma_unary_derives(tokens, pos + 1);
        let spelling = tokens.subrange(pos, pos + parsed.consumed);
        assert(spelling.subrange(1, spelling.len() as int) == tokens.subrange(
            pos + 1,
            pos + 1 + operand.consumed,
        ));
    } else {
        lemma_primary_derives(tokens, pos);
    }
}

/// Soundness of the operands of a tier: the tree that the rule yields is a
/// derivation from the tokens it passed, and binds tighter than the tier.
pub proof fn lemma_operand_derives(tokens: Seq<SpecToken>, pos: int, tier: Tier)
    requires
        0 <= pos,
        parse_operand(tokens, pos, tier).result is Ok,
    ensures
        derives(
            tokens,
            pos,
            parse_operand(tokens, pos, tier).consumed,
            parse_operand(tokens, pos, tier).result->Ok_0,
            (tier_looseness(tier) - 1) as nat,
        ),
        !continues(
            tokens,
            pos + parse_operand(tokens, pos, tier).consumed,
            (tier_looseness(tier) - 1) as nat,
        ),
    decreases remaining(tokens, pos), (3 * tier_looseness(tier) - 1) as nat,
{
    match tier {
        Tier::Equality => lemma_binary_derives(tokens, pos, Tier::Comparison),
        Tier::Comparison => lemma_binary_derives(tokens, pos, Tier::Term),
        Tier::Term => lemma_binary_derives(tokens, pos, Tier::Factor),
        Tier::Factor => lemma_unary_derives(tokens, pos),
    }
}

/// Soundness of the rest of a tier's rule: when `left` is a derivation from
/// the tokens between `start` and `pos`, the tree that the rule yields is
/// a derivation from the tokens between `start` and where the rule ends,
/// and no operator that the rule would go on with stands there.
pub proof fn lemma_binary_rest_derives(
    tokens: Seq<SpecToken>,
    start: int,
    pos: int,
    tier: Tier,
    left: SpecExpr,
)
    requires
        start <= pos,
        derives(tokens, start, (pos - start) as nat, left, tier_looseness(tier)),
        !continues(tokens, pos, (tier_looseness(tier) - 1) as nat),
        parse_binary_rest(tokens, pos, tier, left).result is Ok,
    ensures
        derives(
            tokens,
            start,
            (pos - start + parse_binary_rest(tokens, pos, tier, left).consumed) as nat,
            parse_binary_rest(tokens, pos, tier, left).result->Ok_0,
            tier_looseness(tier),
        ),
        !continues(
            tokens,
            pos + parse_binary_rest(tokens, pos, tier, left).consumed,
            tier_looseness(tier),
        ),
    decreases remaining(tokens, pos), 3 * tier_looseness(tier),
{
    lemma_matches_tier(tokens, pos, tier);
    if matches_at(tokens, pos, tier_operators(tier)) {
        let operator = token_at(tokens, pos);
        let right = parse_operand(tokens, pos + 1, tier);
        lemma_operand_derives(tokens, pos + 1, tier);
        let folded = SpecExpr::Binary(Box::new(left), operator, Box::new(right.result->Ok_0));
        let end = pos + 1 + right.consumed;
        let spelling = tokens.subrange(start, end);
        assert(spelling.subrange(0, width(left) as int) == tokens.subrange(start, pos));
        assert(spelling.subrange(width(left) as int + 1, spelling.len() as int)
            == tokens.subrange(pos + 1, end));
        assert(spelling[width(left) as int] == operator);
        assert(spells(folded, spelling));
        assert(well_nested(folded));
        lemma_binary_rest_derives(tokens, start, end, tier, folded);
    }
}

/// Soundness of the rule of a tier: the tree that the rule yields is a
/// derivation from the tokens it passed, and no operator that the rule
/// would go on with stands after them.
pub proof fn lemma_binary_derives(tokens: Seq<SpecToken>, pos: int, tier: Tier)
    requires
        0 <= pos,
        parse_binary(tokens, pos, tier).result is Ok,
    ensures
        derives(
            tokens,
            pos,
            parse_binary(tokens, pos, tier).consumed,
            parse_binary(tokens, pos, tier).result->Ok_0,
            tier_looseness(tier),
        ),
        !continues(tokens, pos + parse_binary(tokens, pos, tier).consumed, tier_looseness(tier)),
    decreases remaining(tokens, pos), 3 * tier_looseness(tier) + 1,
{
    let first = parse_operand(tokens, pos, tier);
    lemma_operand_derives(tokens, pos, tier);
    lemma_binary_rest_derives(tokens, pos, pos + first.consumed, tier, first.result->Ok_0);
}

/// What a rule yields that has passed `passed` tokens before `rest`.
pub open spec fn after(passed: nat, rest: Parsed<SpecExpr>) -> Parsed<SpecExpr> {
    Parsed { result: rest.result, consumed: passed + rest.consumed }
}

/// What is well nested binds no looser than the equality tier.
pub proof fn lemma_well_nested_looseness(expr: SpecExpr)
    requires
        well_nested(expr),
    ensures
        looseness(expr) <= 5,
{
}

/// Completeness of `primary`: the rule yields every derivation that binds
/// as tightly as a primary.
pub proof fn lemma_primary_complete(tokens: Seq<SpecToken>, pos: int, consumed: nat, expr: SpecExpr)
    requires
        derives(tokens, pos, consumed, expr, 0),
    ensures
        parse_primary(tokens, pos) == (Parsed { result: Ok(expr), consumed }),
    decreases expr, 0nat,
{
    let spelling = tokens.subrange(pos, pos + consumed);
    assert(spelling[0] == tokens[pos]);
    if let SpecExpr::Grouping(inner) = expr {
        assert(spelling.subrange(1, spelling.len() - 1) == tokens.subrange(
            pos + 1,
            pos + consumed - 1,
        ));
        assert(spelling.last() == tokens[pos + consumed - 1]);
        lemma_well_nested_looseness(*inner);
        lemma_binary_complete(tokens, pos + 1, (consumed - 2) as nat, *inner, Tier::Equality);
        lemma_matches_tier(tokens, pos + consumed - 1, Tier::Equality);
    }
}

/// Completeness of `unary`: the rule yields every derivation that binds as
/// tightly as a unary operation.
pub proof fn lemma_unary_complete(tokens: Seq<SpecToken>, pos: int, consumed: nat, expr: SpecExpr)
    requires
        derives(tokens, pos, consumed, expr, 1),
    ensures
        parse_unary(tokens, pos) == (Parsed { result: Ok(expr), consumed }),
    decreases expr, 1nat,
{
    let spelling = tokens.subrange(pos, pos + consumed);
    assert(spelling[0] == tokens[pos]);
    lemma_matches_unary(tokens, pos);
    if let SpecExpr::Unary(operator, operand) = expr {
        assert(spelling.subrange(1, spelling.len() as int) == tokens.subrange(
            pos + 1,
            pos + consumed,
        ));
        lemma_unary_complete(tokens, pos + 1, (consumed - 1) as nat, *operand);
    } else {
        if let SpecExpr::Grouping(inner) = expr {
        }
        lemma_primary_complete(tokens, pos, consumed, expr);
    }
}

/// Completeness of the operands of a tier: the rule yields every derivation
/// that binds tighter than the tier and is followed by no operator that
/// binds tighter than the tier.
pub proof fn lemma_operand_complete(
    tokens: Seq<SpecToken>,
    pos: int,
    consumed: nat,
    expr: SpecExpr,
    tier: Tier,
)
    requires
        derives(tokens, pos, consumed, expr, (tier_looseness(tier) - 1) as nat),
        !continues(tokens, pos + consumed, (tier_looseness(tier) - 1) as nat),
    ensures
        parse_operand(tokens, pos, tier) == (Parsed { result: Ok(expr), consumed }),
    decreases expr, 3 * tier_looseness(tier),
{
    match tier {
        Tier::Factor => lemma_unary_complete(tokens, pos, consumed, expr),
        Tier::Term => lemma_binary_complete(tokens, pos, consumed, expr, Tier::Factor),
        Tier::Comparison => lemma_binary_complete(tokens, pos, consumed, expr, Tier::Term),
        Tier::Equality => lemma_binary_complete(tokens, pos, consumed, expr, Tier::Comparison),
    }
}

/// The rule of a tier, started where a derivation that binds no looser than
/// the tier starts, yields what the rest of the rule yields after the
/// derivation, if no operator that binds tighter than the tier follows it.
pub proof fn lemma_binary_extends(
    tokens: Seq<SpecToken>,
    pos: int,
    consumed: nat,
    expr: SpecExpr,
    tier: Tier,
)
    requires
        derives(tokens, pos, consumed, expr, tier_looseness(tier)),
        !continues(tokens, pos + consumed, (tier_looseness(tier) - 1) as nat),
    ensures
        parse_binary(tokens, pos, tier) == after(
            consumed,
            parse_binary_rest(tokens, pos + consumed, tier, expr),
        ),
    decreases expr, 3 * tier_looseness(tier) + 1,
{
    if looseness(expr) < tier_looseness(tier) {
        lemma_operand_complete(tokens, pos, consumed, expr, tier);
    } else {
        let spelling = tokens.subrange(pos, pos + consumed);
        match expr {
            SpecExpr::Binary(left, operator, right) => {
                let left_width = width(*left);
                let right_width = width(*right);
                let middle = pos + left_width;
                assert(spelling.subrange(0, left_width as int) == tokens.subrange(pos, middle));
                assert(spelling.subrange(left_width as int + 1, spelling.len() as int)
                    == tokens.subrange(middle + 1, pos + consumed));
                assert(spelling[left_width as int] == tokens[middle]);
                lemma_binary_extends(tokens, pos, left_width, *left, tier);
                lemma_matches_tier(tokens, middle, tier);
                lemma_operand_complete(tokens, middle + 1, right_width, *right, tier);
                assert(parse_operand(tokens, middle + 1, tier) == (Parsed {
                    result: Ok::<SpecExpr, SpecLoxError>(*right),
                    consumed: right_width,
                }));
                let folded = SpecExpr::Binary(
                    Box::new(*left),
                    token_at(tokens, middle),
                    Box::new(*right),
                );
                assert(folded == expr);
                assert(parse_binary_rest(tokens, middle, tier, *left) == after(
                    1 + right_width,
                    parse_binary_rest(tokens, pos + consumed, tier, expr),
                ));
            },
            _ => {},
        }
    }
}

/// Completeness of the rule of a tier: the rule yields every derivation
/// that binds no looser than the tier and is followed by no operator that
/// binds no looser than the tier.
pub proof fn lemma_binary_complete(
    tokens: Seq<SpecToken>,
    pos: int,
    consumed: nat,
    expr: SpecExpr,
    tier: Tier,
)
    requires
        derives(tokens, pos, consumed, expr, tier_looseness(tier)),
        !continues(tokens, pos + consumed, tier_looseness(tier)),
    ensures
        parse_binary(tokens, pos, tier) == (Parsed { result: Ok(expr), consumed }),
    decreases expr, 3 * tier_looseness(tier) + 2,
{
    lemma_binary_extends(tokens, pos, consumed, expr, tier);
    lemma_matches_tier(tokens, pos + consumed, tier);
}

/// The parser is sound and complete for expressions: `expression` yields a
/// tree from the tokens it passes exactly when the tree is a derivation of
/// the grammar from these tokens and no binary operator follows them.
pub proof fn lemma_expression_is_the_derivation(
    tokens: Seq<SpecToken>,
    pos: int,
    consumed: nat,
    expr: SpecExpr,
)
    requires
        0 <= pos,
    ensures
        parse_expression(tokens, pos) == (Parsed { result: Ok(expr), consumed }) <==> derives(
            tokens,
            pos,
            consumed,
            expr,
            5,
        ) && !continues(tokens, pos + consumed, 5),
{
    if parse_expression(tokens, pos) == (Parsed { result: Ok(expr), consumed }) {
        lemma_binary_derives(tokens, pos, Tier::Equality);
    }
    if derives(tokens, pos, consumed, expr, 5) && !continues(tokens, pos + consumed, 5) {
        lemma_binary_complete(tokens, pos, consumed, expr, Tier::Equality);
    }
}

} // verus!
