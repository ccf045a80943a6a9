//! Front end of the Relieve language: turns a labeled parse tree into a typed AST.
pub mod ast;
pub mod parser;
pub mod tree;
pub mod types;
