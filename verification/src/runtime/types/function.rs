//! The [`Function`] enum, which represents a callable value: either a
//! scripted function (carrying bytecode) or a wrapped built-in function.

use vstd::prelude::*;

use crate::runtime::bytecode::{clone_ops, ops_view, Bytecode, OpV};

verus! {

/// One of the built-in functions of the standard library.
///
/// The executor dispatches a call of a wrapped function to the corresponding
/// native implementation in [`crate::stdlib`].
#[derive(Clone, Copy, PartialEq, Eq, Structural)]
pub enum WrappedFunction {
    Print,
    ToString,
    Max,
    Min,
    ToInt,
    ToFloat,
    Round,
    Abs,
    Exec,
    Exit,
    Input,
}

/// A callable value: either a scripted function or a wrapped built-in.
pub enum Function {
    /// A scripted function.
    Scripted(ScriptedFunction),
    /// A wrapped built-in function.
    Wrapped(WrappedFunction),
}

/// A scripted function containing its bytecode.
pub struct ScriptedFunction {
    /// The bytecode of the function.
    pub bytecode: Bytecode,
}

impl ScriptedFunction {
    /// Creates a new scripted function from the given bytecode.
    pub fn new(bytecode: Bytecode) -> (r: Self)
        ensures
            r.bytecode.inner@ == bytecode.inner@,
    {
        ScriptedFunction { bytecode }
    }

    /// Returns the bytecode of the function.
    pub fn bytecode(&self) -> (r: &Bytecode)
        ensures
            r.inner@ == self.bytecode.inner@,
    {
        &self.bytecode
    }
}

/// The mathematical model of a callable value.
pub ghost enum FuncV {
    /// A scripted function, modelled by the model of its bytecode.
    Scripted(Seq<OpV>),
    /// A wrapped built-in function.
    Wrapped(WrappedFunction),
}

/// The model of a callable value.
pub open spec fn func_view(f: Function) -> FuncV {
    match f {
        Function::Scripted(sf) => FuncV::Scripted(ops_view(sf.bytecode.inner@)),
        Function::Wrapped(w) => FuncV::Wrapped(w),
    }
}

/// Copy a callable value, preserving its model.
pub fn clone_function(f: &Function) -> (r: Function)
    ensures
        func_view(r) == func_view(*f),
{
    match f {
        Function::Scripted(sf) => Function::Scripted(ScriptedFunction {
            bytecode: Bytecode { inner: clone_ops(&sf.bytecode.inner) },
        }),
        Function::Wrapped(w) => Function::Wrapped(*w),
    }
}

} // verus!
