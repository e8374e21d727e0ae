//! Name resolution: every declaration gets an identity, and every path in the
//! source is recorded with what it refers to.

pub mod model;
pub mod paths;
pub mod declare;
pub mod members;
pub mod identity;
pub mod keeping;
pub mod types;
pub mod bodies;
pub mod shadowing;
pub mod program;
