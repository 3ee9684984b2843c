pub mod ast;
pub mod generator;
