//! A lexer, recursive-descent parser and tree-walking evaluator for a small
//! dynamically typed scripting language.
//!
//! The pipeline has three stages, and each stage has a module that says what
//! it is to compute and a module that computes it:
//!
//! | stage     | what                  | how                         |
//! |-----------|-----------------------|-----------------------------|
//! | scanning  | [`lexical`]           | [`scanner::Scanner`]        |
//! | parsing   | [`grammar`]           | [`parser::Parser`]          |
//! | running   | [`semantics`]         | [`interpreter::Interpreter`] |
//!
//! The stages share tokens ([`token`], [`token_type`]), syntax trees
//! ([`expression`], [`statement`]), environments ([`environment`]) and
//! diagnostics ([`error`]). Floating-point numbers are bit patterns, and
//! the arithmetic on them is the caller's ([`float`]).

pub mod ast_printer;
pub mod environment;
pub mod error;
pub mod expression;
pub mod float;
pub mod grammar;
pub mod interpreter;
pub mod lexical;
pub mod parser;
pub mod scanner;
pub mod semantics;
pub mod statement;
pub mod text;
pub mod token;
pub mod token_type;
