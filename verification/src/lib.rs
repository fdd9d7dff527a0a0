//! The front end and evaluator of a small expression language: a scanner
//! that turns source text into tokens, a recursive-descent parser that
//! builds an expression tree honoring the usual operator precedence, and a
//! tree-walking evaluator that computes a runtime value from that tree.
//!
//! Each stage carries a functional specification, and the executable code is
//! proved to agree with it exactly: what `scan`, `parse` and `interpret`
//! return is pinned down for every input. Numbers are exact fixed-point
//! decimals (nine fractional digits) built on integers, so their arithmetic
//! is verified end to end.
pub mod decimal;
pub mod interpreter;
pub mod parser;
pub mod scanner;
pub mod token;
