//! An interpreter for a small dynamically-typed scripting language.
//!
//! This crate contains:
//! - A [compiler] which compiles a source string into bytecode.
//!     - A [parser](compiler::parser) which parses a source string into an
//!       AST (abstract syntax tree).
//!     - A [translator](compiler::translator) which translates an AST into
//!       bytecode.
//! - A [runtime] which executes bytecode against a mutable state.
//! - A [standard library](stdlib) which contains built-in functions that are
//!   available to scripts.

pub mod compiler;
pub mod laws;
pub mod numbers;
pub mod runtime;
pub mod stdlib;
