//! The query language: its syntax tree, its parser, and its translation to
//! parameterised SQL.

pub mod ast;
pub mod crypto;
pub mod data;
pub mod lexer;
pub mod parser;
pub mod printer;
pub mod results;
pub mod roundtrip;
pub mod translator;
