pub mod bytecode;
pub mod cache;
pub mod compiler;
pub mod debug;
pub mod file;
pub mod frame;
pub mod instruction;
pub mod machine;
pub mod natives;
pub mod object;
pub mod program;
pub mod register;
pub mod text;
pub mod version;
