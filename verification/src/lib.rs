//! A front end for a small expression language: a scanner that turns source
//! text into tokens, and a recursive-descent parser that turns tokens into an
//! expression tree. Every function states what it computes over a
//! mathematical model of its data.

pub mod ast;
pub mod chars;
pub mod grammar;
pub mod laws;
pub mod parser;
pub mod report;
pub mod scanner;
pub mod syntax;
pub mod token;
