//! A front end for a small query language over a key-value store: a lexer that
//! turns a line of text into located tokens, and a parser that turns tokens into
//! a `PUT` or `GET` statement, both verified against the specifications beside
//! them.

pub mod ast;
pub mod chars;
pub mod congruence;
pub mod cursor;
pub mod error;
pub mod expression;
pub mod lexer;
pub mod number;
pub mod parser_error;
pub mod render;
pub mod statement;
pub mod token;
