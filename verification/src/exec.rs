//! Evaluation.

pub mod eval;
pub mod laws;
