//! A lexical-analysis engine for a small experimental source language.
//!
//! The engine turns raw source text into a sequence of classified tokens.
//! It is built from two cooperating parts: a position-tracking [`cursor::Cursor`]
//! over a character sequence, and a rule-driven [`lexer::Lexer`] that classifies
//! a prefix of the remaining input on every step, with longest-match-wins
//! semantics, earliest-declared tie-breaking, and recovery on unclassifiable
//! input.

pub mod ast;
pub mod cursor;
pub mod diag;
pub mod lexer;
pub mod parser;
pub mod pattern;
pub mod token;

pub use ast::Ast;
pub use ast::Node;
pub use cursor::Cursor;
pub use cursor::EOF;
pub use diag::DiagnosticError;
pub use lexer::Lexer;
pub use lexer::Rule;
pub use parser::Languages;
pub use parser::Parser;
pub use token::Token;
pub use token::TokenKind;
pub use token::Tokens;
