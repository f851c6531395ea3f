//! The evaluator: runs syntax trees against an environment.
//!
//! [`Interpreter`] computes outcomes that the semantics of the language
//! allows, calling the [`FloatHost`] for the rounding arithmetic and the
//! numerals of floating-point numbers.

use vstd::prelude::*;
use vstd::string::*;
use crate::environment::Environment;
use crate::error::{LoxError, SpecLoxError};
use crate::expression::{operands, Expr};
use crate::float::{equal, less, less_equal, negate, Arithmetic, FloatHost};
use crate::lexical::{scan_spec, tokens_match};
use crate::parser::Parser;
use crate::scanner::Scanner;
use crate::semantics::{
    arithmetic_result,
    binary_result,
    comparison_value,
    evaluates,
    executes,
    integer_arithmetic,
    interprets,
    literal_equal,
    runs,
    runs_source,
    unary_value,
    variable_value,
    Evaluated,
    SpecState,
};
use crate::statement::{statement_views, SpecStatement, Statement};
use crate::token::Token;
use crate::token_type::{text_of, Literal, SpecLiteral, TokenType};

verus! {

/// The model of a result that carries no value.
pub open spec fn result_view(result: Result<(), LoxError>) -> Result<(), SpecLoxError> {
    match result {
        Ok(_) => Ok(()),
        Err(error) => Err(error@),
    }
}

/// The model of the result of an evaluation.
pub open spec fn value_view(result: Result<Literal, LoxError>) -> Result<
    SpecLiteral,
    SpecLoxError,
> {
    match result {
        Ok(value) => Ok(value@),
        Err(error) => Err(error@),
    }
}

/// The models of printed lines, oldest first.
pub open spec fn lines_of(output: Seq<String>) -> Seq<Seq<char>> {
    output.map_values(|line: String| line@)
}

/// The magnitude of `i`.
fn magnitude(i: i64) -> (m: u64)
    ensures
        m == if i < 0 {
            -i
        } else {
            i as int
        },
{
    if i < 0 {
        ((-(i + 1)) as u64) + 1
    } else {
        i as u64
    }
}

/// The quotient of `a` by `b`, rounded toward zero, if it exists and fits.
fn divide(a: i64, b: i64) -> (out: Literal)
    ensures
        out@ == integer_arithmetic(Arithmetic::Divide, a, b),
{
    if b == 0 {
        return Literal::Nil;
    }
    let q: u64 = magnitude(a) / magnitude(b);
    if (a < 0) != (b < 0) {
        if q > 0x7fff_ffff_ffff_ffff {
            Literal::Integer(i64::MIN)
        } else {
            Literal::Integer(-(q as i64))
        }
    } else if q > 0x7fff_ffff_ffff_ffff {
        Literal::Nil
    } else {
        Literal::Integer(q as i64)
    }
}

/// Runs programs: holds the global environment and the lines printed so
/// far.
pub struct Interpreter {
    environment: Environment,
    output: Vec<String>,
}

impl View for Interpreter {
    type V = SpecState;

    closed spec fn view(&self) -> SpecState {
        SpecState { scopes: self.environment@, output: lines_of(self.output@) }
    }
}

impl Interpreter {
    /// An interpreter with one empty scope that has printed nothing.
    pub fn new() -> (interpreter: Interpreter)
        ensures
            interpreter@ == (SpecState {
                scopes: seq![Map::<Seq<char>, SpecLiteral>::empty()],
                output: Seq::empty(),
            }),
    {
        let interpreter = Interpreter { environment: Environment::new(None), output: Vec::new() };
        assert(lines_of(interpreter.output@) == Seq::<Seq<char>>::empty());
        interpreter
    }

    /// The environment.
    pub fn environment(&self) -> (environment: &Environment)
        ensures
            environment@ == self@.scopes,
    {
        &self.environment
    }

    /// The lines printed so far, oldest first.
    pub fn output(&self) -> (output: &Vec<String>)
        ensures
            lines_of(output@) == self@.output,
    {
        &self.output
    }

    /// Scans, parses and runs `source`. The first error of any stage ends
    /// the run; nothing runs unless the whole text parses.
    pub fn run<P, A, R>(&mut self, source: String, host: &FloatHost<P, A, R>) -> (result: Result<
        (),
        LoxError,
    >) where P: Fn(String) -> u64, A: Fn(Arithmetic, u64, u64) -> u64, R: Fn(u64) -> String
        requires
            host.ready(),
            source@.len() < usize::MAX,
        ensures
            runs_source(*host, source@, old(self)@, final(self)@, result_view(result)),
    {
        let scanner = Scanner::new(source);
        let tokens = scanner.scan(host)?;
        let ghost scanned = tokens@;
        let mut parser = Parser::new(tokens);
        let statements = parser.parse()?;
        let result = self.interpret(&statements, host);
        proof {
            assert(tokens_match(*host, scanned, scan_spec(source@)->Ok_0));
        }
        result
    }

    /// Runs `statements` in order. The first error ends the run; what was
    /// printed before it stays printed.
    pub fn interpret<P, A, R>(&mut self, statements: &Vec<Statement>, host: &FloatHost<P, A, R>)
        -> (result: Result<(), LoxError>) where
        P: Fn(String) -> u64,
        A: Fn(Arithmetic, u64, u64) -> u64,
        R: Fn(u64) -> String,

        requires
            host.can_apply(),
            host.can_render(),
        ensures
            interprets(
                *host,
                statement_views(statements@),
                old(self)@,
                final(self)@,
                result_view(result),
            ),
    {
        let ghost program = statement_views(statements@);
        let mut i: usize = 0;
        while i < statements.len()
            invariant
                host.can_apply(),
                host.can_render(),
                i <= statements.len(),
                program == statement_views(statements@),
                runs(*host, program, i as nat, old(self)@, self@),
            decreases statements.len() - i,
        {
            let ghost middle = self@;
            let result = self.execute(&statements[i], host);
            proof {
                assert(program[i as int] == statements[i as int]@);
                assert(operands(middle));
            }
            match result {
                Ok(()) => {},
                Err(error) => {
                    proof {
                        assert(runs(*host, program, i as nat, old(self)@, middle));
                    }
                    return Err(error);
                },
            }
            i += 1;
        }
        Ok(())
    }

    fn execute<P, A, R>(&mut self, stmt: &Statement, host: &FloatHost<P, A, R>) -> (result: Result<
        (),
        LoxError,
    >) where P: Fn(String) -> u64, A: Fn(Arithmetic, u64, u64) -> u64, R: Fn(u64) -> String
        requires
            host.can_apply(),
            host.can_render(),
        ensures
            executes(*host, stmt@, old(self)@, final(self)@, result_view(result)),
    {
        match stmt {
            Statement::Print(expr) => self.visit_print_stmt(expr, host),
            Statement::Expression(expr) => self.visit_expression_stmt(expr, host),
            Statement::Var(name, initializer) => self.visit_var_stmt(name, initializer, host),
        }
    }

    /// Evaluates `expr`, operands from left to right.
    pub fn evaluate<P, A, R>(&mut self, expr: &Expr, host: &FloatHost<P, A, R>) -> (result: Result<
        Literal,
        LoxError,
    >) where P: Fn(String) -> u64, A: Fn(Arithmetic, u64, u64) -> u64, R: Fn(u64) -> String
        requires
            host.can_apply(),
        ensures
            evaluates(
                *host,
                expr@,
                old(self)@.scopes,
                Evaluated { value: value_view(result), scopes: final(self)@.scopes },
            ),
            final(self)@.output == old(self)@.output,
        decreases expr,
    {
        match expr {
            Expr::Literal(literal) => Ok(self.visit_literal(literal)),
            Expr::Grouping(inner) => self.evaluate(inner, host),
            Expr::Variable(name) => self.visit_variable(name),
            Expr::Assign(name, value) => {
                let assigned = self.evaluate(value, host);
                let ghost inner = Evaluated {
                    value: value_view(assigned),
                    scopes: self@.scopes,
                };
                proof {
                    assert(operands(inner));
                }
                let value = assigned?;
                self.environment.assign(name, value.clone())?;
                Ok(value)
            },
            Expr::Unary(operator, operand) => {
                let right = self.evaluate(operand, host);
                let ghost inner = Evaluated { value: value_view(right), scopes: self@.scopes };
                proof {
                    assert(operands(inner));
                }
                Ok(self.visit_unary(operator, right?))
            },
            Expr::Binary(left, operator, right) => {
                let left = self.evaluate(left, host);
                let ghost first = Evaluated { value: value_view(left), scopes: self@.scopes };
                proof {
                    assert(operands((first, first)));
                }
                let left = left?;
                let right = self.evaluate(right, host);
                let ghost second = Evaluated { value: value_view(right), scopes: self@.scopes };
                proof {
                    assert(operands((first, second)));
                }
                let right = right?;
                Ok(self.visit_binary(left, operator, right, host))
            },
        }
    }

    /// The value of `left operator right`.
    fn visit_binary<P, A, R>(
        &self,
        left: Literal,
        operator: &Token,
        right: Literal,
        host: &FloatHost<P, A, R>,
    ) -> (out: Literal) where
        P: Fn(String) -> u64,
        A: Fn(Arithmetic, u64, u64) -> u64,
        R: Fn(u64) -> String,

        requires
            host.can_apply(),
        ensures
            binary_result(*host, operator.ttype, left@, right@, out@),
    {
        match operator.ttype {
            TokenType::Minus => self.arithmetic(Arithmetic::Subtract, left, right, host),
            TokenType::Slash => self.arithmetic(Arithmetic::Divide, left, right, host),
            TokenType::Star => self.arithmetic(Arithmetic::Multiply, left, right, host),
            TokenType::Plus => self.arithmetic(Arithmetic::Add, left, right, host),
            TokenType::Greater
            | TokenType::GreaterEqual
            | TokenType::Less
            | TokenType::LessEqual => {
                self.comparison(operator.ttype, left, right)
            },
            TokenType::BangEqual => Literal::Bool(!self.equals(&left, &right)),
            TokenType::EqualEqual => Literal::Bool(self.equals(&left, &right)),
            _ => Literal::Nil,
        }
    }

    /// The value of `left op right` for the four operations of arithmetic.
    fn arithmetic<P, A, R>(
        &self,
        op: Arithmetic,
        left: Literal,
        right: Literal,
        host: &FloatHost<P, A, R>,
    ) -> (out: Literal) where
        P: Fn(String) -> u64,
        A: Fn(Arithmetic, u64, u64) -> u64,
        R: Fn(u64) -> String,

        requires
            host.can_apply(),
        ensures
            arithmetic_result(*host, op, left@, right@, out@),
    {
        match (left, right) {
            (Literal::Float(a), Literal::Float(b)) => Literal::Float((host.apply)(op, a, b)),
            (Literal::Integer(a), Literal::Integer(b)) => match op {
                Arithmetic::Add => Literal::Integer(a.wrapping_add(b)),
                Arithmetic::Subtract => Literal::Integer(a.wrapping_sub(b)),
                Arithmetic::Multiply => Literal::Integer(a.wrapping_mul(b)),
                Arithmetic::Divide => divide(a, b),
            },
            (Literal::String(a), Literal::String(b)) => match op {
                Arithmetic::Add => Literal::String(a.concat(b.as_str())),
                _ => Literal::Nil,
            },
            _ => Literal::Nil,
        }
    }

    /// The value of `left op right` for the four ordering operators.
    fn comparison(&self, op: TokenType, left: Literal, right: Literal) -> (out: Literal)
        ensures
            out@ == comparison_value(op, left@, right@),
    {
        match (left, right) {
            (Literal::Float(a), Literal::Float(b)) => Literal::Bool(
                match op {
                    TokenType::Greater => less(b, a),
                    TokenType::GreaterEqual => less_equal(b, a),
                    TokenType::Less => less(a, b),
                    _ => less_equal(a, b),
                },
            ),
            (Literal::Integer(a), Literal::Integer(b)) => Literal::Bool(
                match op {
                    TokenType::Greater => a > b,
                    TokenType::GreaterEqual => a >= b,
                    TokenType::Less => a < b,
                    _ => a <= b,
                },
            ),
            _ => Literal::Nil,
        }
    }

    /// Whether `left == right`.
    fn equals(&self, left: &Literal, right: &Literal) -> (r: bool)
        ensures
            r == literal_equal(left@, right@),
    {
        match (left, right) {
            (Literal::Float(a), Literal::Float(b)) => equal(*a, *b),
            (Literal::Integer(a), Literal::Integer(b)) => *a == *b,
            (Literal::String(a), Literal::String(b)) => *a == *b,
            (Literal::Bool(a), Literal::Bool(b)) => *a == *b,
            _ => false,
        }
    }

    fn visit_literal(&self, literal: &Literal) -> (out: Literal)
        ensures
            out@ == literal@,
    {
        literal.clone()
    }

    /// The value of `operator right`.
    fn visit_unary(&self, operator: &Token, right: Literal) -> (out: Literal)
        ensures
            out@ == unary_value(operator.ttype, right@),
    {
        match operator.ttype {
            TokenType::Bang => match right {
                Literal::Bool(val) => Literal::Bool(!val),
                Literal::Float(_) => Literal::Bool(false),
                Literal::Integer(val) => Literal::Bool(val == 0),
                Literal::String(val) => Literal::Bool(val.as_str().is_empty()),
                _ => Literal::Bool(false),
            },
            TokenType::Minus => match right {
                Literal::Float(val) => Literal::Float(negate(val)),
                Literal::Integer(val) => Literal::Integer(0i64.wrapping_sub(val)),
                _ => Literal::Nil,
            },
            _ => Literal::Nil,
        }
    }

    fn visit_variable(&self, name: &Token) -> (result: Result<Literal, LoxError>)
        ensures
            value_view(result) == variable_value(self@.scopes, name@),
    {
        self.environment.get(name)
    }

    fn visit_expression_stmt<P, A, R>(&mut self, expr: &Expr, host: &FloatHost<P, A, R>) -> (result:
        Result<(), LoxError>) where
        P: Fn(String) -> u64,
        A: Fn(Arithmetic, u64, u64) -> u64,
        R: Fn(u64) -> String,

        requires
            host.can_apply(),
        ensures
            executes(
                *host,
                SpecStatement::Expression(expr@),
                old(self)@,
                final(self)@,
                result_view(result),
            ),
    {
        self.evaluate(expr, host)?;
        Ok(())
    }

    fn visit_print_stmt<P, A, R>(&mut self, expr: &Expr, host: &FloatHost<P, A, R>) -> (result:
        Result<(), LoxError>) where
        P: Fn(String) -> u64,
        A: Fn(Arithmetic, u64, u64) -> u64,
        R: Fn(u64) -> String,

        requires
            host.can_apply(),
            host.can_render(),
        ensures
            executes(
                *host,
                SpecStatement::Print(expr@),
                old(self)@,
                final(self)@,
                result_view(result),
            ),
    {
        let value = self.evaluate(expr, host)?;
        let line = text_of(&value, host);
        let ghost before = self.output@;
        self.output.push(line);
        proof {
            assert(lines_of(self.output@).drop_last() == lines_of(before));
        }
        Ok(())
    }

    fn visit_var_stmt<P, A, R>(
        &mut self,
        name: &Token,
        initializer: &Option<Expr>,
        host: &FloatHost<P, A, R>,
    ) -> (result: Result<(), LoxError>) where
        P: Fn(String) -> u64,
        A: Fn(Arithmetic, u64, u64) -> u64,
        R: Fn(u64) -> String,

        requires
            host.can_apply(),
        ensures
            executes(
                *host,
                SpecStatement::Var(
                    name@,
                    match initializer {
                        Some(expr) => Some(expr@),
                        None => None,
                    },
                ),
                old(self)@,
                final(self)@,
                result_view(result),
            ),
    {
        let mut value = Literal::Nil;
        if let Some(initial) = initializer {
            value = self.evaluate(initial, host)?;
        }
        self.environment.define(name.lexeme.clone(), value);
        Ok(())
    }
}

} // verus!
