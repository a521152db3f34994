//! Lexical scanner for a small whitespace-sensitive language: it turns a
//! source text into classified tokens, each with the byte offset where it ends.

pub mod laws;
pub mod lexer;
pub mod scan;
pub mod text;
pub mod token;

pub use lexer::Lexer;
pub use token::{Literal, Token};
