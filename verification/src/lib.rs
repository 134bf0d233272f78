//! Front-end of a compiler for a small imperative, statically typed
//! language. The pipeline walks an in-memory filesystem to discover the
//! modules of a package, renames every identifier to a collision-free
//! module-resolved form, merges all modules into one definition table
//! keyed by globally unique names, and annotates every expression with
//! its type.

pub mod ast;
pub mod merger;
pub mod names;
pub mod package;
pub mod parse;
pub mod resolver;
pub mod retriever;
pub mod table;
pub mod types;
pub mod vfs;
pub mod scope;
