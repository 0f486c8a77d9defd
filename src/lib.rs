//! Front end of a small imperative language: a recursive-descent parser from
//! classified tokens to a concrete syntax tree, and a pruner from that tree to
//! an abstract syntax tree. Both are proved to compute exactly the functions
//! given by the spec functions `grammar::parse_spec` and `pruner::pruned`.
pub mod grammar;
pub mod laws;
pub mod parser;
pub mod pruner;
pub mod text;
pub mod tree;
