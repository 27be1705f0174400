//! Front end of a small statement-oriented language: text primitives, the
//! syntax tree, and a parser whose result is pinned to a mathematical grammar.

pub mod text;
pub mod split;
pub mod number;
pub mod ast;
pub mod laws;
