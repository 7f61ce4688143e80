//! Arithmetic expressions read from text: a lexer, a recursive-descent parser
//! and an evaluator that reduces a tree to a checked calculation.
pub mod tokenizer;
pub mod parser;
pub mod evaluator;
