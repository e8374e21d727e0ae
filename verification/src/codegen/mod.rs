//! The Lua back end.
//!
//! Every expression is generated to a destination: it is discarded, assigned or
//! returned. Control flow pushes the destination into its branches; only control
//! flow that yields a value in operand position goes through a temporary.

pub mod state;
pub mod imports;
pub mod syntax;
pub mod analysis;
pub mod matching;
pub mod annotate;
pub mod lower;
pub mod meaning;
pub mod values;
pub mod small;
pub mod expr;
pub mod pattern;
pub mod iterate;
pub mod stmt;
pub mod calls;
pub mod cycle;
pub mod schedule;
pub mod groups;
pub mod capacity;
pub mod items;
pub mod modules;
pub mod registry;
pub mod program;
pub mod header;
pub mod metadata;
pub mod output;
