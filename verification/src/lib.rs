//! A verified source-to-source translator for a minimal imperative language:
//! variable bindings, `print`, `if`/`elif`/`else`, `while`, and arithmetic,
//! relational and string expressions.
//!
//! The pipeline runs in three verified stages over one shared tree shape:
//! the [`lexer`] turns the source characters into tokens, the [`parser`]
//! builds a statement list by recursive descent with a precedence-climbing
//! expression sub-parser (collecting non-fatal used-before-declaration
//! warnings on the side), and the [`transpile`] emitter lowers the tree to
//! target-language text, while [`utils`] dumps it as parenthesized
//! S-expressions for inspection. Each stage's contract pins its output to a
//! specification function of its input alone.

pub mod lexer;
pub mod parser;
pub mod transpile;
pub mod utils;
