//! The front end of a small expression language: a scanner that turns source text
//! into tokens, and a parser that turns tokens into a tree by precedence climbing.
//! Both record what they cannot make sense of and go on.
//!
//! `scan` and `grammar` say, as mathematical functions, what the scanner and the
//! parser yield; `lexer` and `parser` compute it; `scan_laws` and `grammar_laws`
//! prove what follows from the definitions.

pub mod ast;
pub mod common;
pub mod evaluator;
pub mod grammar;
pub mod grammar_laws;
pub mod lexer;
pub mod object;
pub mod parser;
pub mod scan;
pub mod scan_laws;
pub mod text;
pub mod token;
