//! Statements.

use vstd::prelude::*;
use crate::expression::{Expr, SpecExpr};
use crate::token::{SpecToken, Token};

verus! {

/// A statement. A program is a sequence of statements, run in order.
#[derive(Debug, PartialEq)]
pub enum Statement {
    /// `print expr;`
    Print(Box<Expr>),
    /// `expr;`
    Expression(Box<Expr>),
    /// `var name;` or `var name = initializer;`
    Var(Token, Option<Expr>),
}

/// The mathematical model of a [`Statement`].
pub enum SpecStatement {
    Print(SpecExpr),
    Expression(SpecExpr),
    Var(SpecToken, Option<SpecExpr>),
}

impl View for Statement {
    type V = SpecStatement;

    open spec fn view(&self) -> SpecStatement {
        match self {
            Statement::Print(expr) => SpecStatement::Print(expr@),
            Statement::Expression(expr) => SpecStatement::Expression(expr@),
            Statement::Var(name, initializer) => SpecStatement::Var(
                name@,
                match initializer {
                    Some(expr) => Some(expr@),
                    None => None,
                },
            ),
        }
    }
}

/// The models of a sequence of statements, in order.
pub open spec fn statement_views(statements: Seq<Statement>) -> Seq<SpecStatement> {
    statements.map_values(|s: Statement| s@)
}

} // verus!
