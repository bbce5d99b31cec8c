//! The data the evaluator works on.

pub mod ast;
pub mod callable;
pub mod env;
pub mod list;
pub mod number;
pub mod unit;
