//! A small stack machine with word-addressed contract storage, and a compiler
//! that lowers a contract syntax tree to its bytecode.

pub mod word;
pub mod stack;
pub mod vm;
pub mod ast;
pub mod selector;
pub mod contract;
pub mod lower;
