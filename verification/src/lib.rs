//! A lexical scanner for a small programming language.
//!
//! The scanner turns source text into a stream of classified tokens: a caller
//! constructs a [`lexer::Lexer`] from the input and then calls
//! [`lexer::Lexer::next_token`] repeatedly until it observes a token of kind
//! [`token::TokenKind::EndOfInput`].

pub mod chars;
pub mod laws;
pub mod lexer;
pub mod token;
