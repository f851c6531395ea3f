//! Expression trees.

use vstd::prelude::*;
use crate::token::{SpecToken, Token};
use crate::token_type::{Literal, SpecLiteral};

verus! {

/// An expression. Each node owns its operands.
#[derive(Debug, PartialEq)]
pub enum Expr {
    /// `name = value`
    Assign(Token, Box<Expr>),
    /// `left operator right`
    Binary(Box<Expr>, Token, Box<Expr>),
    /// `( inner )`
    Grouping(Box<Expr>),
    /// A literal value.
    Literal(Literal),
    /// `operator operand`
    Unary(Token, Box<Expr>),
    /// The value of a variable.
    Variable(Token),
}

/// The mathematical model of an [`Expr`].
pub enum SpecExpr {
    Assign(SpecToken, Box<SpecExpr>),
    Binary(Box<SpecExpr>, SpecToken, Box<SpecExpr>),
    Grouping(Box<SpecExpr>),
    Literal(SpecLiteral),
    Unary(SpecToken, Box<SpecExpr>),
    Variable(SpecToken),
}

/// The model of an expression: the same tree over the models of its tokens
/// and literals.
pub open spec fn expr_view(expr: Expr) -> SpecExpr
    decreases expr,
{
    match expr {
        Expr::Assign(name, value) => SpecExpr::Assign(name@, Box::new(expr_view(*value))),
        Expr::Binary(left, operator, right) => SpecExpr::Binary(
            Box::new(expr_view(*left)),
            operator@,
            Box::new(expr_view(*right)),
        ),
        Expr::Grouping(inner) => SpecExpr::Grouping(Box::new(expr_view(*inner))),
        Expr::Literal(value) => SpecExpr::Literal(value@),
        Expr::Unary(operator, operand) => SpecExpr::Unary(
            operator@,
            Box::new(expr_view(*operand)),
        ),
        Expr::Variable(name) => SpecExpr::Variable(name@),
    }
}

impl View for Expr {
    type V = SpecExpr;

    open spec fn view(&self) -> SpecExpr {
        expr_view(*self)
    }
}

/// Holds of everything. It gives a quantifier over the outcomes of the
/// operands of an expression a term to be instantiated by.
pub open spec fn operands<T>(outcomes: T) -> bool {
    true
}

} // verus!
