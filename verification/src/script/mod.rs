//! The duel language: lexer, parser, syntax tree, cost table, and the rules
//! that settle a turn.

pub mod api;
pub mod error;
pub mod value;
pub mod vm;
pub mod rehearsal;
pub mod lexer;
pub mod ast;
pub mod parser;
pub mod step;
