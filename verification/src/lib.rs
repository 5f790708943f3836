//! An encrypted social-graph query engine: object and association queries are
//! parsed, their arguments encrypted, and the result translated to
//! parameterised SQL. Identifiers and text are protected by deterministic
//! authenticated encryption, association times by order-preserving encryption,
//! so that equality and range predicates still hold on the stored values.
//!
//! * [`ope`]: the order-preserving cipher: intervals, the coin tape, uniform
//!   and hypergeometric sampling, encryption and decryption, and what holds of
//!   them.
//! * [`query`]: the query language: syntax tree, lexer, parser and writer, the
//!   translation to statements, the rows of answers, and the ciphers over
//!   arguments and rows.
//! * [`service`]: what the server decides between a script and its answer.
//! * [`text`]: decimal numerals and characters.

pub mod ope;
pub mod query;
pub mod service;
pub mod text;
