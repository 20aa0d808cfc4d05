//! A line filter driven by a small boolean query language.
//!
//! A query such as `"debug | error"` is parsed into an expression tree
//! ([`ast::AstNode`]), compiled into a predicate ([`evaluator::Evaluator`]),
//! wrapped into a byte-level filter with UTF-8 validation ([`filter::Filter`]),
//! and applied line by line to a byte stream by the engine
//! ([`engine::run_filter`]).

pub mod ast;
pub mod cli;
pub mod engine;
pub mod evaluator;
pub mod filter;
pub mod parser;
