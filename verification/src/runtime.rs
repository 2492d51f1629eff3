//! The runtime: the value model, the program state and the bytecode
//! executor.

pub mod bytecode;
pub mod error;
pub mod executor;
pub mod state;
pub mod types;
