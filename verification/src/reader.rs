//! What the evaluator takes over from the reader: lexical tokens.

pub mod tokenizer;
