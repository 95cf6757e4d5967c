pub mod ast;
pub mod common;
pub mod error;
pub mod lexer;
pub mod parser;
pub mod symbol;
