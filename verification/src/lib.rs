//! Felisp: a verified tree-walking interpreter for a small Lisp-family
//! expression language, extended with `select`/`insert` special forms over an
//! in-memory, page-organized table of rows.
//!
//! The pipeline is: tokenizer -> parser -> expression model -> lexical
//! environment -> evaluator, plus the paged table store that the evaluator's
//! `select`/`insert` forms manipulate. Every executable function is verified
//! against a mathematical model of the same pipeline.

pub mod data;
pub mod display;
pub mod env;
pub mod eval;
pub mod laws;
pub mod native;
pub mod num;
pub mod parser;
pub mod table;
