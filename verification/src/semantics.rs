//! The meaning of expressions, statements and programs.
//!
//! Values are fixed here except for the rounding arithmetic and the
//! numerals of floating-point numbers, which a [`FloatHost`] supplies. The
//! definitions are therefore relations: [`evaluates`], [`executes`] and
//! [`interprets`] say which outcomes an evaluation may have, and leave open
//! only what the host leaves open.

use vstd::prelude::*;
use crate::environment::{assign, define, lookup, undefined_variable, Scopes};
use crate::error::SpecLoxError;
use crate::expression::{operands, SpecExpr};
use crate::float::{float_eq, float_le, float_lt, float_neg, Arithmetic, FloatHost};
use crate::grammar::parse_program;
use crate::lexical::{scan_spec, tokens_match};
use crate::statement::SpecStatement;
use crate::token::{token_views, SpecToken, Token};
use crate::token_type::{literal_text, SpecLiteral, TokenType};

verus! {

/// The `i64` that is congruent to `v` modulo 2^64: what two's-complement
/// arithmetic keeps of a result.
pub open spec fn wrap(v: int) -> i64 {
    let m = v % 0x1_0000_0000_0000_0000;
    if m > i64::MAX {
        (m - 0x1_0000_0000_0000_0000) as i64
    } else {
        m as i64
    }
}

/// The quotient of `a` by `b`, rounded toward zero; `b` is not zero.
pub open spec fn quotient(a: int, b: int) -> int {
    let magnitude = (if a < 0 {
        -a
    } else {
        a
    }) / (if b < 0 {
        -b
    } else {
        b
    });
    if (a < 0) != (b < 0) {
        -magnitude
    } else {
        magnitude
    }
}

/// Integer arithmetic. Sums, differences and products wrap around; a
/// quotient that does not exist, or does not fit, is `Nil`.
pub open spec fn integer_arithmetic(op: Arithmetic, a: i64, b: i64) -> SpecLiteral {
    match op {
        Arithmetic::Add => SpecLiteral::Integer(wrap(a + b)),
        Arithmetic::Subtract => SpecLiteral::Integer(wrap(a - b)),
        Arithmetic::Multiply => SpecLiteral::Integer(wrap(a * b)),
        Arithmetic::Divide => if b == 0 || quotient(a as int, b as int) > i64::MAX {
            SpecLiteral::Nil
        } else {
            SpecLiteral::Integer(quotient(a as int, b as int) as i64)
        },
    }
}

/// Whether `out` is a result of `left op right`: defined on two floats (by
/// the host), on two integers, and, for `Add`, on two strings; `Nil` on
/// every other pair.
pub open spec fn arithmetic_result<P, A, R>(
    host: FloatHost<P, A, R>,
    op: Arithmetic,
    left: SpecLiteral,
    right: SpecLiteral,
    out: SpecLiteral,
) -> bool where P: Fn(String) -> u64, A: Fn(Arithmetic, u64, u64) -> u64, R: Fn(u64) -> String {
    match (left, right) {
        (SpecLiteral::Float(a), SpecLiteral::Float(b)) => out matches SpecLiteral::Float(c)
            && host.applies(op, a, b, c),
        (SpecLiteral::Integer(a), SpecLiteral::Integer(b)) => out == integer_arithmetic(op, a, b),
        (SpecLiteral::String(a), SpecLiteral::String(b)) => out == if op == Arithmetic::Add {
            SpecLiteral::String(a + b)
        } else {
            SpecLiteral::Nil
        },
        _ => out == SpecLiteral::Nil,
    }
}

/// The value of `left op right` for the ordering operators: a `Bool` on two
/// floats or two integers, `Nil` on every other pair.
pub open spec fn comparison_value(op: TokenType, left: SpecLiteral, right: SpecLiteral)
    -> SpecLiteral {
    match (left, right) {
        (SpecLiteral::Float(a), SpecLiteral::Float(b)) => SpecLiteral::Bool(
            match op {
                TokenType::Greater => float_lt(b, a),
                TokenType::GreaterEqual => float_le(b, a),
                TokenType::Less => float_lt(a, b),
                _ => float_le(a, b),
            },
        ),
        (SpecLiteral::Integer(a), SpecLiteral::Integer(b)) => SpecLiteral::Bool(
            match op {
                TokenType::Greater => a > b,
                TokenType::GreaterEqual => a >= b,
                TokenType::Less => a < b,
                _ => a <= b,
            },
        ),
        _ => SpecLiteral::Nil,
    }
}

/// Whether two values are equal: of the same variant, which is not `Nil`,
/// and of the same value. Floats are equal as numbers.
pub open spec fn literal_equal(left: SpecLiteral, right: SpecLiteral) -> bool {
    match (left, right) {
        (SpecLiteral::Float(a), SpecLiteral::Float(b)) => float_eq(a, b),
        (SpecLiteral::Integer(a), SpecLiteral::Integer(b)) => a == b,
        (SpecLiteral::String(a), SpecLiteral::String(b)) => a == b,
        (SpecLiteral::Bool(a), SpecLiteral::Bool(b)) => a == b,
        _ => false,
    }
}

/// Whether `out` is a result of `left op right`. An operator that is not
/// binary yields `Nil`.
pub open spec fn binary_result<P, A, R>(
    host: FloatHost<P, A, R>,
    op: TokenType,
    left: SpecLiteral,
    right: SpecLiteral,
    out: SpecLiteral,
) -> bool where P: Fn(String) -> u64, A: Fn(Arithmetic, u64, u64) -> u64, R: Fn(u64) -> String {
    match op {
        TokenType::Minus => arithmetic_result(host, Arithmetic::Subtract, left, right, out),
        TokenType::Slash => arithmetic_result(host, Arithmetic::Divide, left, right, out),
        TokenType::Star => arithmetic_result(host, Arithmetic::Multiply, left, right, out),
        TokenType::Plus => arithmetic_result(host, Arithmetic::Add, left, right, out),
        TokenType::Greater | TokenType::GreaterEqual | TokenType::Less | TokenType::LessEqual => out
            == comparison_value(op, left, right),
        TokenType::BangEqual => out == SpecLiteral::Bool(!literal_equal(left, right)),
        TokenType::EqualEqual => out == SpecLiteral::Bool(literal_equal(left, right)),
        _ => out == SpecLiteral::Nil,
    }
}

/// The value of `!operand`: the negation of a `Bool`, whether an `Integer`
/// is zero, whether a `String` is empty, and false for everything else.
pub open spec fn logical_not(operand: SpecLiteral) -> bool {
    match operand {
        SpecLiteral::Bool(b) => !b,
        SpecLiteral::Integer(i) => i == 0,
        SpecLiteral::String(s) => s.len() == 0,
        _ => false,
    }
}

/// The value of `op operand`. Negation is defined on numbers and is `Nil`
/// on everything else; an operator that is not unary yields `Nil`.
pub open spec fn unary_value(op: TokenType, operand: SpecLiteral) -> SpecLiteral {
    match op {
        TokenType::Bang => SpecLiteral::Bool(logical_not(operand)),
        TokenType::Minus => match operand {
            SpecLiteral::Float(bits) => SpecLiteral::Float(float_neg(bits)),
            SpecLiteral::Integer(i) => SpecLiteral::Integer(wrap(-i)),
            _ => SpecLiteral::Nil,
        },
        _ => SpecLiteral::Nil,
    }
}

/// The outcome of evaluating an expression: its value or the error that
/// stopped it, and the scopes it leaves behind.
pub struct Evaluated {
    pub value: Result<SpecLiteral, SpecLoxError>,
    pub scopes: Scopes,
}

/// The outcome of reading the variable `name`.
pub open spec fn variable_value(scopes: Scopes, name: SpecToken) -> Result<
    SpecLiteral,
    SpecLoxError,
> {
    match lookup(scopes, name.lexeme) {
        Some(value) => Ok(value),
        None => Err(undefined_variable(name)),
    }
}

/// The outcome of assigning to `name` what evaluating the right-hand side
/// gave.
pub open spec fn assigned(name: SpecToken, value: Evaluated) -> Evaluated {
    match value.value {
        Err(error) => value,
        Ok(v) => match assign(value.scopes, name.lexeme, v) {
            Some(scopes) => Evaluated { value: Ok(v), scopes },
            None => Evaluated { value: Err(undefined_variable(name)), scopes: value.scopes },
        },
    }
}

/// Whether `out` is an outcome of evaluating `expr` in `scopes`.
///
/// Operands are evaluated from left to right, and the first error ends the
/// evaluation.
pub open spec fn evaluates<P, A, R>(
    host: FloatHost<P, A, R>,
    expr: SpecExpr,
    scopes: Scopes,
    out: Evaluated,
) -> bool where P: Fn(String) -> u64, A: Fn(Arithmetic, u64, u64) -> u64, R: Fn(u64) -> String
    decreases expr,
{
    match expr {
        SpecExpr::Literal(value) => out == (Evaluated { value: Ok(value), scopes }),
        SpecExpr::Grouping(inner) => evaluates(host, *inner, scopes, out),
        SpecExpr::Variable(name) => out == (Evaluated {
            value: variable_value(scopes, name),
            scopes,
        }),
        SpecExpr::Assign(name, value) => exists|inner: Evaluated|
            {
                &&& #[trigger] operands(inner)
                &&& evaluates(host, *value, scopes, inner)
                &&& out == assigned(name, inner)
            },
        SpecExpr::Unary(operator, operand) => exists|inner: Evaluated|
            {
                &&& #[trigger] operands(inner)
                &&& evaluates(host, *operand, scopes, inner)
                &&& out == (Evaluated {
                    value: match inner.value {
                        Ok(value) => Ok(unary_value(operator.ttype, value)),
                        Err(error) => Err(error),
                    },
                    scopes: inner.scopes,
                })
            },
        SpecExpr::Binary(left, operator, right) => exists|first: Evaluated, second: Evaluated|
            {
                &&& #[trigger] operands((first, second))
                &&& evaluates(host, *left, scopes, first)
                &&& match first.value {
                    Err(error) => out == first,
                    Ok(a) => {
                        &&& evaluates(host, *right, first.scopes, second)
                        &&& match second.value {
                            Err(error) => out == second,
                            Ok(b) => {
                                &&& out.scopes == second.scopes
                                &&& out.value matches Ok(value)
                                &&& binary_result(host, operator.ttype, a, b, value)
                            },
                        }
                    },
                }
            },
    }
}

/// The state of an interpreter: the scopes of its environment and the lines
/// it has printed, oldest first.
pub struct SpecState {
    pub scopes: Scopes,
    pub output: Seq<Seq<char>>,
}

/// Whether running `statement` in the state `before` may end in the state
/// `after` with `result`.
pub open spec fn executes<P, A, R>(
    host: FloatHost<P, A, R>,
    statement: SpecStatement,
    before: SpecState,
    after: SpecState,
    result: Result<(), SpecLoxError>,
) -> bool where P: Fn(String) -> u64, A: Fn(Arithmetic, u64, u64) -> u64, R: Fn(u64) -> String {
    match statement {
        SpecStatement::Expression(expr) => {
            &&& after.output == before.output
            &&& exists|value: Result<SpecLiteral, SpecLoxError>|
                {
                    &&& #[trigger] evaluates(
                        host,
                        expr,
                        before.scopes,
                        Evaluated { value, scopes: after.scopes },
                    )
                    &&& result == match value {
                        Ok(_) => Ok::<(), SpecLoxError>(()),
                        Err(error) => Err(error),
                    }
                }
        },
        SpecStatement::Print(expr) => exists|value: Result<SpecLiteral, SpecLoxError>|
            {
                &&& #[trigger] evaluates(
                    host,
                    expr,
                    before.scopes,
                    Evaluated { value, scopes: after.scopes },
                )
                &&& match value {
                    Ok(printed) => {
                        &&& result == Ok::<(), SpecLoxError>(())
                        &&& after.output.len() == before.output.len() + 1
                        &&& after.output.drop_last() == before.output
                        &&& literal_text(host, printed, after.output.last())
                    },
                    Err(error) => result == Err::<(), SpecLoxError>(error) && after.output
                        == before.output,
                }
            },
        SpecStatement::Var(name, None) => {
            &&& result == Ok::<(), SpecLoxError>(())
            &&& after.output == before.output
            &&& after.scopes == define(before.scopes, name.lexeme, SpecLiteral::Nil)
        },
        SpecStatement::Var(name, Some(initializer)) => {
            &&& after.output == before.output
            &&& exists|value: Evaluated|
                {
                    &&& #[trigger] evaluates(host, initializer, before.scopes, value)
                    &&& match value.value {
                        Ok(initial) => result == Ok::<(), SpecLoxError>(()) && after.scopes
                            == define(value.scopes, name.lexeme, initial),
                        Err(error) => result == Err::<(), SpecLoxError>(error) && after.scopes
                            == value.scopes,
                    }
                }
        },
    }
}

/// Whether running the first `count` statements, all without error, may
/// lead from `before` to `after`.
pub open spec fn runs<P, A, R>(
    host: FloatHost<P, A, R>,
    statements: Seq<SpecStatement>,
    count: nat,
    before: SpecState,
    after: SpecState,
) -> bool where P: Fn(String) -> u64, A: Fn(Arithmetic, u64, u64) -> u64, R: Fn(u64) -> String
    decreases count,
{
    if count == 0 {
        after == before
    } else {
        exists|middle: SpecState|
            {
                &&& #[trigger] operands(middle)
                &&& runs(host, statements, (count - 1) as nat, before, middle)
                &&& executes(host, statements[count - 1], middle, after, Ok(()))
            }
    }
}

/// Whether running `statements` in order may lead from `before` to `after`
/// with `result`: either every statement runs, or the first error ends the
/// run and what was printed before it stays printed.
pub open spec fn interprets<P, A, R>(
    host: FloatHost<P, A, R>,
    statements: Seq<SpecStatement>,
    before: SpecState,
    after: SpecState,
    result: Result<(), SpecLoxError>,
) -> bool where P: Fn(String) -> u64, A: Fn(Arithmetic, u64, u64) -> u64, R: Fn(u64) -> String {
    match result {
        Ok(_) => runs(host, statements, statements.len(), before, after),
        Err(error) => exists|count: nat, middle: SpecState|
            {
                &&& count < statements.len()
                &&& #[trigger] runs(host, statements, count, before, middle)
                &&& executes(host, statements[count as int], middle, after, Err(error))
            },
    }
}

/// Whether scanning, parsing and running `source` may lead from `before`
/// to `after` with `result`. Nothing runs unless the whole text parses.
pub open spec fn runs_source<P, A, R>(
    host: FloatHost<P, A, R>,
    source: Seq<char>,
    before: SpecState,
    after: SpecState,
    result: Result<(), SpecLoxError>,
) -> bool where P: Fn(String) -> u64, A: Fn(Arithmetic, u64, u64) -> u64, R: Fn(u64) -> String {
    match scan_spec(source) {
        Err(error) => result == Err::<(), SpecLoxError>(error) && after == before,
        Ok(lexemes) => exists|tokens: Seq<Token>|
            {
                &&& #[trigger] tokens_match(host, tokens, lexemes)
                &&& match parse_program(token_views(tokens), 0).result {
                    Err(error) => result == Err::<(), SpecLoxError>(error) && after == before,
                    Ok(statements) => interprets(host, statements, before, after, result),
                }
            },
    }
}

/// Evaluation fails on variables that are not bound and on nothing else:
/// operands that an operator is not defined on give `Nil`, not an error.
pub proof fn lemma_only_undefined_variables_fail<P, A, R>(
    host: FloatHost<P, A, R>,
    expr: SpecExpr,
    scopes: Scopes,
    out: Evaluated,
) where P: Fn(String) -> u64, A: Fn(Arithmetic, u64, u64) -> u64, R: Fn(u64) -> String
    requires
        evaluates(host, expr, scopes, out),
        out.value is Err,
    ensures
        out.value->Err_0.kind is UndefinedVariable,
    decreases expr,
{
    match expr {
        SpecExpr::Literal(_) => {},
        SpecExpr::Variable(_) => {},
        SpecExpr::Grouping(inner) => {
            lemma_only_undefined_variables_fail(host, *inner, scopes, out);
        },
        SpecExpr::Assign(name, value) => {
            let inner = choose|inner: Evaluated|
                {
                    &&& #[trigger] operands(inner)
                    &&& evaluates(host, *value, scopes, inner)
                    &&& out == assigned(name, inner)
                };
            if inner.value is Err {
                lemma_only_undefined_variables_fail(host, *value, scopes, inner);
            }
        },
        SpecExpr::Unary(operator, operand) => {
            let inner = choose|inner: Evaluated|
                {
                    &&& #[trigger] operands(inner)
                    &&& evaluates(host, *operand, scopes, inner)
                    &&& out == (Evaluated {
                        value: match inner.value {
                            Ok(value) => Ok(unary_value(operator.ttype, value)),
                            Err(error) => Err(error),
                        },
                        scopes: inner.scopes,
                    })
                };
            lemma_only_undefined_variables_fail(host, *operand, scopes, inner);
        },
        SpecExpr::Binary(left, operator, right) => {
            let (first, second) = choose|first: Evaluated, second: Evaluated|
                {
                    &&& #[trigger] operands((first, second))
                    &&& evaluates(host, *left, scopes, first)
                    &&& match first.value {
                        Err(error) => out == first,
                        Ok(a) => {
                            &&& evaluates(host, *right, first.scopes, second)
                            &&& match second.value {
                                Err(error) => out == second,
                                Ok(b) => {
                                    &&& out.scopes == second.scopes
                                    &&& out.value matches Ok(value)
                                    &&& binary_result(host, operator.ttype, a, b, value)
                                },
                            }
                        },
                    }
                };
            if first.value is Err {
                lemma_only_undefined_variables_fail(host, *left, scopes, first);
            } else {
                lemma_only_undefined_variables_fail(host, *right, first.scopes, second);
            }
        },
    }
}

} // verus!
