//! Front end for a small scripting language: a lexer that turns source text
//! into a token sequence, and a recursive-descent parser that turns the token
//! sequence into an expression tree with a canonical textual rendering.

pub mod ast;
pub mod chars;
pub mod lexer;
pub mod parser;
pub mod token;
