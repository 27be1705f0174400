//! The syntax tree, the symbol table, and the parser that builds them.

pub mod structure;
pub mod expr;
pub mod symbole_table;
pub mod error;
pub mod grammar;
pub mod parsing;
