//! A verified core for a source-to-source transpiler that lowers an extended
//! scripting dialect to a strictly compatible base dialect.
//!
//! The crate holds the transformation engine: the syntax-tree model, the
//! tree-rewriting passes (bitwise-library call conversion and empty-block
//! removal with trivia migration), the modifier registry and configuration
//! merging, and the decision logic of the two-phase pipeline.  File input and
//! output, command-line handling and configuration-file parsing live outside
//! the library and hand it plain values.
pub mod ast;
pub mod bit32;
pub mod cli;
pub mod config;
pub mod empty_do;
pub mod errors;
pub mod exports;
pub mod manifest;
pub mod modifier;
pub mod pipeline;
pub mod polyfill;
pub mod render;
pub mod semantics;
pub mod transpiler;
pub mod version;

pub use ast::Block;
pub use ast::Expr;
pub use ast::Stmt;
