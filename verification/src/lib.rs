//! The lexical front end of a tree-walking interpreter for the Lox language.
//!
//! [`scanner::Scanner`] turns source text into tokens and a list of lexical
//! errors. What it computes is defined by the lexical grammar in [`grammar`],
//! and the scanner is verified against that definition: for every source it
//! terminates, returns exactly the tokens that the grammar gives, ending with
//! Eof, and reports exactly the errors that the grammar gives.
//!
//! [`expr`] holds the expression tree and the printer that renders a tree in
//! parenthesized prefix form; [`lox::Lox`] runs the scanner and keeps the
//! error reports.
//!
//! Numbers are kept exactly, as decimal numerals ([`number::Decimal`]): the
//! library itself holds no floating-point value.

pub mod chars;
pub mod error;
pub mod expr;
pub mod grammar;
pub mod keywords;
pub mod lox;
pub mod number;
pub mod scanner;
pub mod text;
pub mod token;
