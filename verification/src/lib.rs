//! Front end of the blum language: source text to tokens, tokens to a parse
//! tree, with positioned diagnostics instead of failure.
//!
//! `lexer` reads text into tokens; `cursor` walks them, one token of
//! lookahead; `parser` reads declarations and `statement` reads `let`
//! statements and literals; `error` holds the diagnostics. Each rule of the
//! grammar is a function on a token sequence and a position, and the code that
//! runs is proved to compute it. `proofs` states what follows for inputs of a
//! given shape.

pub mod token;
pub mod error;
pub mod lexer;
pub mod cursor;
pub mod expr;
pub mod parser;
pub mod proofs;
pub mod statement;
