//! The value model of the runtime: primitives, functions, tables and the
//! [`Object`](object::Object) wrapper, together with the operations on them.

pub mod floats;
pub mod function;
pub mod object;
pub mod operations;
pub mod primitive;
pub mod table;
pub mod utilities;
