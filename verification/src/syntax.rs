//! The front end: from source text to tokens, and from tokens to a tree.

pub mod ast;
pub mod lexer;
pub mod parser;
