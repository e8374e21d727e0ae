//! The parser: from a token stream to a syntax tree.

pub mod forward;
pub mod grammar;
pub mod items;
pub mod listing;
pub mod meta;
pub mod names;
pub mod operators;
pub mod patterns;
pub mod pieces;
pub mod primaries;
pub mod precedence;
pub mod program;
pub mod state;
pub mod statements;
pub mod types;
