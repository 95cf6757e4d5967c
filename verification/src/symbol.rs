pub mod display;
pub mod list;
pub mod number;
pub mod object;
pub mod operators;
pub mod range;
pub mod scope;
pub mod string;
pub mod symbol;
pub mod table;
