//! A small query engine for databases kept as CSV files: the query text is
//! split into tokens, parsed into a syntax tree and planned into the steps
//! that the executor carries out on the files.
use vstd::prelude::*;

pub mod error;
pub mod text;
pub mod tokenizer;
pub mod grammar;
pub mod parser;
pub mod syntax;
pub mod literals;
pub mod objects;
pub mod plan_model;
pub mod planner;
pub mod utils;
pub mod eval;
pub mod host;
pub mod headers;
pub mod security;
pub mod paths;
pub mod options;
pub mod rows;
pub mod order;
pub mod exprs;
pub mod table;
pub mod columns;
pub mod append;

verus! {

} // verus!
