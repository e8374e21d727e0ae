//! A compiler from the Rua language to Lua.

pub mod annotation_build;
pub mod annotation_collect;
pub mod annotation_metadata;
pub mod annotation_rules;
pub mod annotations;
pub mod artifact;
pub mod ast;
pub mod attributes;
pub mod backend_layout;
pub mod builtins;
pub mod check;
pub mod check_laws;
pub mod cli;
pub mod codegen;
pub mod compile;
pub mod diag;
pub mod documentation;
pub mod hir;
pub mod layout_laws;
pub mod lexer;
pub mod lua_ir;
pub mod lua_print;
pub mod module_tree;
pub mod order;
pub mod parser;
pub mod project;
pub mod reader;
pub mod resolution;
pub mod resolve;
pub mod restamp;
pub mod sources;
pub mod stamp;
pub mod standard_library;
pub mod table;
pub mod text;
pub mod token;
pub mod tokenize;
pub mod tree;
pub mod typed;
