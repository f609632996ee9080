//! Expression-level constant folding for an ECMAScript-style AST.
//!
//! The pass rewrites expression trees into semantically equivalent but
//! simpler forms: it collapses conditionals with known tests, short-circuits
//! logical operators, folds unary and binary operations on literals, and
//! flattens single-element sequence expressions, while preserving every
//! observable side effect in its original order.

pub mod ast;
pub mod fold;
pub mod laws;
pub mod numstr;
pub mod sem;
pub mod value;
