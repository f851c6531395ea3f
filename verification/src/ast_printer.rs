//! Writes expressions in prefix form, every operation in parentheses.

use vstd::prelude::*;
use vstd::string::*;
use crate::error::LoxError;
use crate::expression::{operands, Expr, SpecExpr};
use crate::float::{Arithmetic, FloatHost};
use crate::grammar::parse_expression;
use crate::parser::agrees_expr;
use crate::token::SpecToken;
use crate::token_type::{literal_text, text_of};

verus! {

/// The texts in `parts`, with one space between neighbours.
pub open spec fn joined(parts: Seq<Seq<char>>) -> Seq<char>
    decreases parts.len(),
{
    if parts.len() == 0 {
        Seq::empty()
    } else if parts.len() == 1 {
        parts[0]
    } else {
        joined(parts.drop_last()) + seq![' '] + parts.last()
    }
}

/// `(name part part ...)`
pub open spec fn parenthesized(name: Seq<char>, parts: Seq<Seq<char>>) -> Seq<char> {
    seq!['('] + name + seq![' '] + joined(parts) + seq![')']
}

/// Whether `text` is a way to write `expr`: a literal as `print` shows it, a
/// variable by its name, and every operation as its operator and operands
/// in parentheses.
pub open spec fn prints<P, A, R>(
    host: FloatHost<P, A, R>,
    expr: SpecExpr,
    text: Seq<char>,
) -> bool where
    P: Fn(String) -> u64,
    A: Fn(Arithmetic, u64, u64) -> u64,
    R: Fn(u64) -> String,

    decreases expr,
{
    match expr {
        SpecExpr::Literal(value) => literal_text(host, value, text),
        SpecExpr::Variable(name) => text == name.lexeme,
        SpecExpr::Grouping(inner) => exists|part: Seq<char>|
            {
                &&& #[trigger] operands(part)
                &&& prints(host, *inner, part)
                &&& text == parenthesized("grouping"@, seq![part])
            },
        SpecExpr::Unary(operator, operand) => exists|part: Seq<char>|
            {
                &&& #[trigger] operands(part)
                &&& prints(host, *operand, part)
                &&& text == parenthesized(operator.lexeme, seq![part])
            },
        SpecExpr::Assign(name, value) => exists|part: Seq<char>|
            {
                &&& #[trigger] operands(part)
                &&& prints(host, *value, part)
                &&& text == parenthesized("="@, seq![name.lexeme, part])
            },
        SpecExpr::Binary(left, operator, right) => exists|first: Seq<char>, second: Seq<char>|
            {
                &&& #[trigger] operands((first, second))
                &&& prints(host, *left, first)
                &&& prints(host, *right, second)
                &&& text == parenthesized(operator.lexeme, seq![first, second])
            },
    }
}

/// Writes expressions in prefix form.
pub struct AstPrinter {}

impl AstPrinter {
    /// The prefix form of `expr`.
    pub fn print<P, A, R>(&self, expr: &Expr, host: &FloatHost<P, A, R>) -> (text: String) where
        P: Fn(String) -> u64,
        A: Fn(Arithmetic, u64, u64) -> u64,
        R: Fn(u64) -> String,

        requires
            host.can_render(),
        ensures
            prints(*host, expr@, text@),
        decreases expr,
    {
        match expr {
            Expr::Literal(literal) => text_of(literal, host),
            Expr::Variable(name) => name.lexeme.clone(),
            Expr::Grouping(inner) => {
                let part = self.print(inner, host);
                let parts = vec![part];
                proof {
                    assert(operands(part@));
                    assert(parts@.map_values(|part: String| part@) == seq![part@]);
                }
                self.parenthesize("grouping", parts)
            },
            Expr::Unary(operator, operand) => {
                let part = self.print(operand, host);
                let parts = vec![part];
                proof {
                    assert(operands(part@));
                    assert(parts@.map_values(|part: String| part@) == seq![part@]);
                }
                self.parenthesize(operator.lexeme.as_str(), parts)
            },
            Expr::Assign(name, value) => {
                let part = self.print(value, host);
                let parts = vec![name.lexeme.clone(), part];
                proof {
                    assert(operands(part@));
                    assert(parts@.map_values(|part: String| part@) == seq![name.lexeme@, part@]);
                }
                self.parenthesize("=", parts)
            },
            Expr::Binary(left, operator, right) => {
                let first = self.print(left, host);
                let second = self.print(right, host);
                let parts = vec![first, second];
                proof {
                    assert(operands((first@, second@)));
                    assert(parts@.map_values(|part: String| part@) == seq![first@, second@]);
                }
                self.parenthesize(operator.lexeme.as_str(), parts)
            },
        }
    }

    /// `(name part part ...)`
    fn parenthesize(&self, name: &str, parts: Vec<String>) -> (text: String)
        ensures
            text@ == parenthesized(name@, parts@.map_values(|part: String| part@)),
    {
        let ghost texts = parts@.map_values(|part: String| part@);
        let mut text = String::from_str("(");
        proof {
            reveal_strlit("(");
            reveal_strlit(" ");
            reveal_strlit(")");
        }
        text.append(name);
        text.append(" ");
        let ghost head = text@;
        let mut i: usize = 0;
        while i < parts.len()
            invariant
                i <= parts.len(),
                texts == parts@.map_values(|part: String| part@),
                text@ == head + joined(texts.take(i as int)),
            decreases parts.len() - i,
        {
            if i > 0 {
                text.append(" ");
            }
            text.append(parts[i].as_str());
            proof {
                reveal_strlit(" ");
                assert(texts.take(i + 1).drop_last() == texts.take(i as int));
                assert(texts.take(i + 1).last() == parts[i as int]@);
            }
            i += 1;
        }
        text.append(")");
        proof {
            reveal_strlit(")");
            assert(texts.take(parts.len() as int) == texts);
            assert(text@ == seq!['('] + name@ + seq![' '] + joined(texts) + seq![')']);
        }
        text
    }
}

/// Whether the host renders each float in one way only.
pub open spec fn renders_uniquely<P, A, R>(host: FloatHost<P, A, R>) -> bool where
    P: Fn(String) -> u64,
    A: Fn(Arithmetic, u64, u64) -> u64,
    R: Fn(u64) -> String,
 {
    forall|bits: u64, first: Seq<char>, second: Seq<char>|
        host.renders(bits, first) && host.renders(bits, second) ==> first == second
}

/// With a host that renders each float in one way only, an expression has
/// one prefix form only.
pub proof fn lemma_prefix_form_is_unique<P, A, R>(
    host: FloatHost<P, A, R>,
    expr: SpecExpr,
    first: Seq<char>,
    second: Seq<char>,
) where P: Fn(String) -> u64, A: Fn(Arithmetic, u64, u64) -> u64, R: Fn(u64) -> String
    requires
        renders_uniquely(host),
        prints(host, expr, first),
        prints(host, expr, second),
    ensures
        first == second,
    decreases expr,
{
    match expr {
        SpecExpr::Literal(value) => {},
        SpecExpr::Variable(name) => {},
        SpecExpr::Grouping(inner) => {
            let a = choose|part: Seq<char>|
                #![trigger operands(part)]
                prints(host, *inner, part) && first == parenthesized("grouping"@, seq![part]);
            let b = choose|part: Seq<char>|
                #![trigger operands(part)]
                prints(host, *inner, part) && second == parenthesized("grouping"@, seq![part]);
            lemma_prefix_form_is_unique(host, *inner, a, b);
        },
        SpecExpr::Unary(operator, operand) => {
            let a = choose|part: Seq<char>|
                #![trigger operands(part)]
                prints(host, *operand, part) && first == parenthesized(
                    operator.lexeme,
                    seq![part],
                );
            let b = choose|part: Seq<char>|
                #![trigger operands(part)]
                prints(host, *operand, part) && second == parenthesized(
                    operator.lexeme,
                    seq![part],
                );
            lemma_prefix_form_is_unique(host, *operand, a, b);
        },
        SpecExpr::Assign(name, value) => {
            let a = choose|part: Seq<char>|
                #![trigger operands(part)]
                prints(host, *value, part) && first == parenthesized(
                    "="@,
                    seq![name.lexeme, part],
                );
            let b = choose|part: Seq<char>|
                #![trigger operands(part)]
                prints(host, *value, part) && second == parenthesized(
                    "="@,
                    seq![name.lexeme, part],
                );
            lemma_prefix_form_is_unique(host, *value, a, b);
        },
        SpecExpr::Binary(left, operator, right) => {
            let (a, b) = choose|a: Seq<char>, b: Seq<char>|
                #![trigger operands((a, b))]
                prints(host, *left, a) && prints(host, *right, b) && first == parenthesized(
                    operator.lexeme,
                    seq![a, b],
                );
            let (c, d) = choose|c: Seq<char>, d: Seq<char>|
                #![trigger operands((c, d))]
                prints(host, *left, c) && prints(host, *right, d) && second == parenthesized(
                    operator.lexeme,
                    seq![c, d],
                );
            lemma_prefix_form_is_unique(host, *left, a, c);
            lemma_prefix_form_is_unique(host, *right, b, d);
        },
    }
}

/// Parsing is a function of the tokens, and so is the prefix form of what
/// was parsed: two parses of one expression at one position of one token
/// sequence yield one tree, and, with a host that renders each float in one
/// way only, one text.
pub proof fn lemma_reparse_prints_the_same<P, A, R>(
    host: FloatHost<P, A, R>,
    tokens: Seq<SpecToken>,
    pos: int,
    first: Result<Expr, LoxError>,
    second: Result<Expr, LoxError>,
    first_text: Seq<char>,
    second_text: Seq<char>,
) where P: Fn(String) -> u64, A: Fn(Arithmetic, u64, u64) -> u64, R: Fn(u64) -> String
    requires
        renders_uniquely(host),
        agrees_expr(first, parse_expression(tokens, pos).result),
        agrees_expr(second, parse_expression(tokens, pos).result),
        first matches Ok(expr) && prints(host, expr@, first_text),
        second matches Ok(expr) && prints(host, expr@, second_text),
    ensures
        first->Ok_0@ == second->Ok_0@,
        first_text == second_text,
{
    lemma_prefix_form_is_unique(host, first->Ok_0@, first_text, second_text);
}

} // verus!
