//! Front end of a small expression language: a scanner that turns source text
//! into tokens and a precedence-climbing parser that turns tokens into a
//! syntax tree, with an evaluator for the trees of literals, operators and
//! conditionals.
//!
//! Scanner and parser are proved to compute the lexical rules and the grammar
//! that `lexer::rules` and `parser::grammar` state; `laws` holds what follows
//! from those for scanning and parsing as a whole.
pub mod ast;
pub mod evaluator;
pub mod laws;
pub mod lexer;
pub mod parser;
