//! Static semantic analysis of SQL statements against a schema catalog.
//!
//! The library validates parsed SQL statements without executing them:
//! it checks that every referenced table, view, CTE and column exists and
//! is unambiguous, that compared expression types are compatible, and that
//! an INSERT's value count matches its column list.  Statements enter the
//! library as values of its own abstract syntax tree; a front end is
//! expected to produce that tree from SQL text.

#![verifier::loop_isolation(false)]

pub mod analyzer;
pub mod ast;
pub mod builder;
pub mod catalog;
pub mod diag;
pub mod dialect;
pub mod laws;
pub mod resolver;
pub mod scope;
pub mod seqx;
pub mod splitter;
pub mod strutil;
pub mod type_resolver;
pub mod types;
