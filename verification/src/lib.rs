//! A verified lexer for a small C-like language.
//!
//! The lexer turns source text into a stream of typed tokens, tracking the
//! line/column position of every token and reporting malformed input as
//! typed, recoverable errors.

pub mod tokens;
pub mod model;
pub mod lexer;
