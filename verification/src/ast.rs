pub mod ast;
pub mod evaluator;
