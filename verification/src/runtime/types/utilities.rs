//! Utilities for creating objects from plain values.

use vstd::prelude::*;
use vstd::string::StrSliceExecFns;

use crate::runtime::bytecode::{ops_view, Bytecode};
use crate::runtime::types::function::{Function, FuncV, ScriptedFunction, WrappedFunction};
use crate::runtime::types::object::{obj_view, Object, ObjectValue, Value};
use crate::runtime::types::primitive::{Primitive, PrimV};
use crate::runtime::types::table::Table;

verus! {

/// Creates an integer object.
pub fn integer(value: i64) -> (r: Object)
    ensures
        obj_view(r) == Value::Prim(PrimV::Integer(value)),
{
    Object { value: Some(ObjectValue::Primitive(Primitive::Integer(value))), metatable: None }
}

/// Creates a float object from the IEEE-754 bit pattern of its value.
pub fn float(bits: u64) -> (r: Object)
    ensures
        obj_view(r) == Value::Prim(PrimV::Float(bits)),
{
    Object { value: Some(ObjectValue::Primitive(Primitive::Float(bits))), metatable: None }
}

/// Creates a string object.
pub fn string(value: String) -> (r: Object)
    ensures
        obj_view(r) == Value::Prim(PrimV::Str(value@)),
{
    Object { value: Some(ObjectValue::Primitive(Primitive::Str(value))), metatable: None }
}

/// Creates a nil object.
pub fn nil() -> (r: Object)
    ensures
        obj_view(r) == Value::Prim(PrimV::Nil),
{
    Object { value: Some(ObjectValue::Primitive(Primitive::Nil)), metatable: None }
}

/// Creates a boolean object.
pub fn boolean(x: bool) -> (r: Object)
    ensures
        obj_view(r) == Value::Prim(PrimV::Boolean(x)),
{
    Object { value: Some(ObjectValue::Primitive(Primitive::Boolean(x))), metatable: None }
}

/// Creates a function object wrapping the given built-in function.
pub fn wrapped_function(func: WrappedFunction) -> (r: Object)
    ensures
        obj_view(r) == Value::Func(FuncV::Wrapped(func)),
{
    Object { value: Some(ObjectValue::Function(Function::Wrapped(func))), metatable: None }
}

/// Creates a function object from the given bytecode.
pub fn scripted_function(bytecode: Bytecode) -> (r: Object)
    ensures
        obj_view(r) == Value::Func(FuncV::Scripted(ops_view(bytecode.inner@))),
{
    Object {
        value: Some(ObjectValue::Function(Function::Scripted(ScriptedFunction { bytecode }))),
        metatable: None,
    }
}

/// Creates an empty table object.
pub fn table() -> (r: Object)
    ensures
        obj_view(r) == Value::Tbl(Seq::<(Seq<char>, Value)>::empty()),
{
    let t = Table::new();
    proof {
        assert(crate::runtime::types::object::table_view(t.inner@) =~= Seq::<
            (Seq<char>, Value),
        >::empty());
    }
    Object { value: Some(ObjectValue::Table(t)), metatable: None }
}

/// Relies on `String`'s `FromIterator<char>`: collecting characters yields
/// the string of exactly those characters in order.
#[verifier::external_body]
pub fn chars_to_string(v: Vec<char>) -> (r: String)
    ensures
        r@ == v@,
{
    v.into_iter().collect()
}


/// The characters of a string, as a vector.
pub fn str_chars(s: &str) -> (r: Vec<char>)
    ensures
        r@ == s@,
{
    let n = s.unicode_len();
    let mut r: Vec<char> = Vec::new();
    let mut i: usize = 0;
    while i < n
        invariant
            i <= n,
            n == s@.len(),
            r@ == s@.take(i as int),
        decreases n - i,
    {
        r.push(s.get_char(i));
        proof {
            assert(r@ =~= s@.take(i + 1));
        }
        i = i + 1;
    }
    proof {
        assert(s@.take(n as int) =~= s@);
    }
    r
}

} // verus!
