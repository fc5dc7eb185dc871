//! A small statically typed language of refinement value types and
//! multiply dispatched functions: lexer, parser, type checker, registry and
//! evaluator, each with its contract.
//!
//! Every stage comes as a pair of modules. One states the rule as
//! mathematics: [`scanning`] where the tokens of a text are, [`grammar`]
//! what a token stream derives, [`typing`] what type an expression has,
//! [`semantics`] what an expression means. The other is the machinery that
//! computes the rule: [`lexer`], [`parser`], [`typechecker`], [`evaluator`].
//! [`laws`] holds what follows from the rules.

pub mod ast;
pub mod compiler;
pub mod error;
pub mod evaluator;
pub mod grammar;
pub mod laws;
pub mod lexer;
pub mod list;
pub mod optimized_evaluator;
pub mod parser;
pub mod scanning;
pub mod semantics;
pub mod specialization;
pub mod stdlib;
pub mod text;
pub mod typechecker;
pub mod types;
pub mod typing;
pub mod value;

pub use error::Error;
