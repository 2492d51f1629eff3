//! The [`Primitive`] type: simple values with specialized support by the
//! interpreter.

use vstd::prelude::*;

verus! {

/// Represents a single primitive value.
///
/// A float value is carried as the bit pattern of an IEEE-754
/// double-precision number (see [`crate::runtime::types::floats`]).
pub enum Primitive {
    /// Represents the absence of a value.
    Nil,
    /// An integer value (64-bit signed).
    Integer(i64),
    /// A floating point value, held as its IEEE-754 bit pattern.
    Float(u64),
    /// A string value.
    Str(String),
    /// A boolean value.
    Boolean(bool),
}

/// The mathematical model of a primitive value.
pub ghost enum PrimV {
    Nil,
    Integer(i64),
    Float(u64),
    Str(Seq<char>),
    Boolean(bool),
}

/// The model of a primitive value.
pub open spec fn prim_view(p: Primitive) -> PrimV {
    match p {
        Primitive::Nil => PrimV::Nil,
        Primitive::Integer(x) => PrimV::Integer(x),
        Primitive::Float(x) => PrimV::Float(x),
        Primitive::Str(s) => PrimV::Str(s@),
        Primitive::Boolean(x) => PrimV::Boolean(x),
    }
}

/// Copy a primitive value.
pub fn clone_primitive(p: &Primitive) -> (r: Primitive)
    ensures
        prim_view(r) == prim_view(*p),
{
    match p {
        Primitive::Nil => Primitive::Nil,
        Primitive::Integer(x) => Primitive::Integer(*x),
        Primitive::Float(x) => Primitive::Float(*x),
        Primitive::Str(s) => Primitive::Str(s.clone()),
        Primitive::Boolean(x) => Primitive::Boolean(*x),
    }
}

} // verus!
