//! A tree-walking evaluator for a small Lisp: the value model, lexical
//! scopes, and the evaluation routines, with their behaviour stated as
//! contracts over mathematical views of the data.

pub mod exec;
pub mod io;
pub mod reader;
pub mod text;
pub mod types;
