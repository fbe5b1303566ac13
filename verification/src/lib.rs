//! Explain plans for revset expressions: an expression model, its evaluation
//! contexts and cost heuristic, and a renderer for the annotated tree.

pub mod analyze;
pub mod expr;
pub mod flat;
pub mod import;
pub mod parse;
pub mod pattern;
pub mod print;
pub mod render;
pub mod resolve;
pub mod resolved;
pub mod text;
pub mod tree;
