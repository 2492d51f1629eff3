//! The operators of the language: arithmetic, comparison and logical
//! operations on objects, lifted to push their result onto the current
//! frame's operand stack.

use vstd::prelude::*;
use vstd::string::StringExecFns;

use crate::compiler::ast::{BinaryOperationKind, UnaryOperationKind};
use crate::runtime::error::RuntimeError;
use crate::runtime::state::State;
use crate::runtime::types::floats::{
    float_add, float_add_of, float_div, float_div_of, float_from_int, float_le, float_le_of,
    float_lt, float_lt_of, float_mul, float_mul_of, float_neg, float_neg_of, float_of_int,
    float_rem, float_rem_of, float_sub, float_sub_of,
};
use crate::runtime::types::object::{obj_eq, obj_view, val_eq, Object, Value};
use crate::runtime::types::primitive::{prim_view, PrimV, Primitive};
use crate::runtime::types::utilities::{boolean, nil};

verus! {

/// Whether the kind is one of the five arithmetic operations.
pub open spec fn is_arith_kind(kind: BinaryOperationKind) -> bool {
    match kind {
        BinaryOperationKind::Add
        | BinaryOperationKind::Subtract
        | BinaryOperationKind::Multiply
        | BinaryOperationKind::Divide
        | BinaryOperationKind::Remainder => true,
        _ => false,
    }
}

/// Whether the kind is one of the four numeric comparisons.
pub open spec fn is_cmp_kind(kind: BinaryOperationKind) -> bool {
    match kind {
        BinaryOperationKind::GreaterThan
        | BinaryOperationKind::GreaterThanOrEqual
        | BinaryOperationKind::LessThan
        | BinaryOperationKind::LessThanOrEqual => true,
        _ => false,
    }
}

/// The result of an arithmetic operation on two float values (by bit
/// pattern).
pub open spec fn float_arith_spec(kind: BinaryOperationKind, a: u64, b: u64) -> u64 {
    match kind {
        BinaryOperationKind::Add => float_add_of(a, b),
        BinaryOperationKind::Subtract => float_sub_of(a, b),
        BinaryOperationKind::Multiply => float_mul_of(a, b),
        BinaryOperationKind::Divide => float_div_of(a, b),
        _ => float_rem_of(a, b),
    }
}

/// The result of an arithmetic operation on two integers: wrapping for
/// addition, subtraction and multiplication (and for the one overflowing
/// division), a fatal error for a zero divisor.
pub open spec fn int_arith_spec(kind: BinaryOperationKind, a: i64, b: i64) -> Result<
    i64,
    RuntimeError,
> {
    match kind {
        BinaryOperationKind::Add => Ok(vstd::wrapping::i64_specs::wrapping_add(a, b)),
        BinaryOperationKind::Subtract => Ok(vstd::wrapping::i64_specs::wrapping_sub(a, b)),
        BinaryOperationKind::Multiply => Ok(vstd::wrapping::i64_specs::wrapping_mul(a, b)),
        BinaryOperationKind::Divide => if b == 0 {
            Err(RuntimeError::DivisionByZero)
        } else {
            Ok(
                match a.checked_div(b) {
                    Some(q) => q,
                    None => i64::MIN,
                },
            )
        },
        _ => if b == 0 {
            Err(RuntimeError::DivisionByZero)
        } else {
            Ok(
                match a.checked_rem(b) {
                    Some(q) => q,
                    None => 0,
                },
            )
        },
    }
}

/// The result of an arithmetic operation on two primitives: integers stay
/// integers, a float operand promotes the other side to float, `+` on two
/// strings concatenates, and every other combination yields nil.
pub open spec fn arith_spec(kind: BinaryOperationKind, x: PrimV, y: PrimV) -> Result<
    PrimV,
    RuntimeError,
> {
    match (x, y) {
        (PrimV::Integer(a), PrimV::Integer(b)) => match int_arith_spec(kind, a, b) {
            Ok(q) => Ok(PrimV::Integer(q)),
            Err(e) => Err(e),
        },
        (PrimV::Integer(a), PrimV::Float(b)) => Ok(
            PrimV::Float(float_arith_spec(kind, float_of_int(a), b)),
        ),
        (PrimV::Float(a), PrimV::Integer(b)) => Ok(
            PrimV::Float(float_arith_spec(kind, a, float_of_int(b))),
        ),
        (PrimV::Float(a), PrimV::Float(b)) => Ok(PrimV::Float(float_arith_spec(kind, a, b))),
        (PrimV::Str(a), PrimV::Str(b)) => if kind == BinaryOperationKind::Add {
            Ok(PrimV::Str(a + b))
        } else {
            Ok(PrimV::Nil)
        },
        _ => Ok(PrimV::Nil),
    }
}

/// The result of a numeric comparison on two float values (by bit pattern).
pub open spec fn float_cmp_spec(kind: BinaryOperationKind, a: u64, b: u64) -> bool {
    match kind {
        BinaryOperationKind::GreaterThan => float_lt_of(b, a),
        BinaryOperationKind::GreaterThanOrEqual => float_le_of(b, a),
        BinaryOperationKind::LessThan => float_lt_of(a, b),
        _ => float_le_of(a, b),
    }
}

/// The result of a numeric comparison on two integers.
pub open spec fn int_cmp_spec(kind: BinaryOperationKind, a: i64, b: i64) -> bool {
    match kind {
        BinaryOperationKind::GreaterThan => a > b,
        BinaryOperationKind::GreaterThanOrEqual => a >= b,
        BinaryOperationKind::LessThan => a < b,
        _ => a <= b,
    }
}

/// The result of a numeric comparison on two primitives, with integer to
/// float promotion; operands that are not both numeric are a fatal error.
pub open spec fn cmp_spec(kind: BinaryOperationKind, x: PrimV, y: PrimV) -> Result<
    bool,
    RuntimeError,
> {
    match (x, y) {
        (PrimV::Integer(a), PrimV::Integer(b)) => Ok(int_cmp_spec(kind, a, b)),
        (PrimV::Integer(a), PrimV::Float(b)) => Ok(float_cmp_spec(kind, float_of_int(a), b)),
        (PrimV::Float(a), PrimV::Integer(b)) => Ok(float_cmp_spec(kind, a, float_of_int(b))),
        (PrimV::Float(a), PrimV::Float(b)) => Ok(float_cmp_spec(kind, a, b)),
        _ => Err(RuntimeError::TypeMismatch),
    }
}

/// The value that a binary operation produces on two operand models, or the
/// fatal error it raises.
pub open spec fn binary_op_spec(kind: BinaryOperationKind, a: Value, b: Value) -> Result<
    Value,
    RuntimeError,
> {
    match kind {
        BinaryOperationKind::Add
        | BinaryOperationKind::Subtract
        | BinaryOperationKind::Multiply
        | BinaryOperationKind::Divide
        | BinaryOperationKind::Remainder => match (a, b) {
            (Value::Prim(x), Value::Prim(y)) => match arith_spec(kind, x, y) {
                Ok(p) => Ok(Value::Prim(p)),
                Err(e) => Err(e),
            },
            _ => Err(RuntimeError::TypeMismatch),
        },
        BinaryOperationKind::Equal => Ok(Value::Prim(PrimV::Boolean(val_eq(a, b)))),
        BinaryOperationKind::NotEqual => Ok(Value::Prim(PrimV::Boolean(!val_eq(a, b)))),
        BinaryOperationKind::GreaterThan
        | BinaryOperationKind::GreaterThanOrEqual
        | BinaryOperationKind::LessThan
        | BinaryOperationKind::LessThanOrEqual => match (a, b) {
            (Value::Prim(x), Value::Prim(y)) => match cmp_spec(kind, x, y) {
                Ok(r) => Ok(Value::Prim(PrimV::Boolean(r))),
                Err(e) => Err(e),
            },
            _ => Err(RuntimeError::TypeMismatch),
        },
        BinaryOperationKind::And => match (a, b) {
            (Value::Prim(PrimV::Boolean(x)), Value::Prim(PrimV::Boolean(y))) => Ok(
                Value::Prim(PrimV::Boolean(x && y)),
            ),
            _ => Err(RuntimeError::TypeMismatch),
        },
        BinaryOperationKind::Or => match (a, b) {
            (Value::Prim(PrimV::Boolean(x)), Value::Prim(PrimV::Boolean(y))) => Ok(
                Value::Prim(PrimV::Boolean(x || y)),
            ),
            _ => Err(RuntimeError::TypeMismatch),
        },
        BinaryOperationKind::Power => Err(RuntimeError::Unsupported),
    }
}

/// The value that a unary operation produces on an operand model, or the
/// fatal error it raises. Negation of a non-numeric value yields nil.
pub open spec fn unary_op_spec(kind: UnaryOperationKind, v: Value) -> Result<
    Value,
    RuntimeError,
> {
    match kind {
        UnaryOperationKind::Negate => Ok(Value::Prim(negate_spec(v))),
        UnaryOperationKind::Not => Err(RuntimeError::Unsupported),
    }
}

/// The value that negation produces: integers and floats are negated
/// (integers wrapping), everything else yields nil.
pub open spec fn negate_spec(v: Value) -> PrimV {
    match v {
        Value::Prim(PrimV::Integer(x)) => if x == i64::MIN {
            PrimV::Integer(i64::MIN)
        } else {
            PrimV::Integer((-x) as i64)
        },
        Value::Prim(PrimV::Float(bits)) => PrimV::Float(float_neg_of(bits)),
        _ => PrimV::Nil,
    }
}

/// What it means for the state to have pushed one value onto the current
/// frame and changed nothing else.
pub open spec fn pushed_value(pre: crate::runtime::state::StateV, post: crate::runtime::state::StateV, v: Value) -> bool {
    &&& post.frames.len() == pre.frames.len()
    &&& forall|i: int| 0 <= i < pre.frames.len() - 1 ==> post.frames[i] == pre.frames[i]
    &&& post.frames.last().locals == pre.frames.last().locals
    &&& post.frames.last().ops == pre.frames.last().ops.push(v)
    &&& post.output == pre.output
    &&& post.steps == pre.steps
}

/// Compute an arithmetic operation on two primitives.
fn arith_exec(kind: BinaryOperationKind, a: &Primitive, b: &Primitive) -> (r: Result<
    Primitive,
    RuntimeError,
>)
    requires
        is_arith_kind(kind),
    ensures
        match r {
            Ok(p) => arith_spec(kind, prim_view(*a), prim_view(*b)) == Ok::<PrimV, RuntimeError>(
                prim_view(p),
            ),
            Err(e) => arith_spec(kind, prim_view(*a), prim_view(*b)) == Err::<PrimV, RuntimeError>(
                e,
            ),
        },
{
    match (a, b) {
        (Primitive::Integer(x), Primitive::Integer(y)) => match int_arith_exec(kind, *x, *y) {
            Ok(q) => Ok(Primitive::Integer(q)),
            Err(e) => Err(e),
        },
        (Primitive::Integer(x), Primitive::Float(y)) => Ok(
            Primitive::Float(float_arith_exec(kind, float_from_int(*x), *y)),
        ),
        (Primitive::Float(x), Primitive::Integer(y)) => Ok(
            Primitive::Float(float_arith_exec(kind, *x, float_from_int(*y))),
        ),
        (Primitive::Float(x), Primitive::Float(y)) => Ok(
            Primitive::Float(float_arith_exec(kind, *x, *y)),
        ),
        (Primitive::Str(x), Primitive::Str(y)) => {
            if matches!(kind, BinaryOperationKind::Add) {
                Ok(Primitive::Str(x.clone().concat(y.as_str())))
            } else {
                Ok(Primitive::Nil)
            }
        },
        _ => Ok(Primitive::Nil),
    }
}

/// Compute an arithmetic operation on two float values.
fn float_arith_exec(kind: BinaryOperationKind, a: u64, b: u64) -> (r: u64)
    requires
        is_arith_kind(kind),
    ensures
        r == float_arith_spec(kind, a, b),
{
    match kind {
        BinaryOperationKind::Add => float_add(a, b),
        BinaryOperationKind::Subtract => float_sub(a, b),
        BinaryOperationKind::Multiply => float_mul(a, b),
        BinaryOperationKind::Divide => float_div(a, b),
        _ => float_rem(a, b),
    }
}

/// Compute an arithmetic operation on two integers.
fn int_arith_exec(kind: BinaryOperationKind, a: i64, b: i64) -> (r: Result<i64, RuntimeError>)
    requires
        is_arith_kind(kind),
    ensures
        r == int_arith_spec(kind, a, b),
{
    match kind {
        BinaryOperationKind::Add => Ok(a.wrapping_add(b)),
        BinaryOperationKind::Subtract => Ok(a.wrapping_sub(b)),
        BinaryOperationKind::Multiply => Ok(a.wrapping_mul(b)),
        BinaryOperationKind::Divide => {
            if b == 0 {
                Err(RuntimeError::DivisionByZero)
            } else {
                Ok(
                    match a.checked_div(b) {
                        Some(q) => q,
                        None => i64::MIN,
                    },
                )
            }
        },
        _ => {
            if b == 0 {
                Err(RuntimeError::DivisionByZero)
            } else {
                Ok(
                    match a.checked_rem(b) {
                        Some(q) => q,
                        None => 0i64,
                    },
                )
            }
        },
    }
}

/// Compute a numeric comparison on two primitives.
pub fn cmp_exec(kind: BinaryOperationKind, a: &Primitive, b: &Primitive) -> (r: Result<
    bool,
    RuntimeError,
>)
    requires
        is_cmp_kind(kind),
    ensures
        r == cmp_spec(kind, prim_view(*a), prim_view(*b)),
{
    match (a, b) {
        (Primitive::Integer(x), Primitive::Integer(y)) => Ok(
            match kind {
                BinaryOperationKind::GreaterThan => *x > *y,
                BinaryOperationKind::GreaterThanOrEqual => *x >= *y,
                BinaryOperationKind::LessThan => *x < *y,
                _ => *x <= *y,
            },
        ),
        (Primitive::Integer(x), Primitive::Float(y)) => Ok(
            float_cmp_exec(kind, float_from_int(*x), *y),
        ),
        (Primitive::Float(x), Primitive::Integer(y)) => Ok(
            float_cmp_exec(kind, *x, float_from_int(*y)),
        ),
        (Primitive::Float(x), Primitive::Float(y)) => Ok(float_cmp_exec(kind, *x, *y)),
        _ => Err(RuntimeError::TypeMismatch),
    }
}

/// Compute a numeric comparison on two float values.
fn float_cmp_exec(kind: BinaryOperationKind, a: u64, b: u64) -> (r: bool)
    requires
        is_cmp_kind(kind),
    ensures
        r == float_cmp_spec(kind, a, b),
{
    match kind {
        BinaryOperationKind::GreaterThan => float_lt(b, a),
        BinaryOperationKind::GreaterThanOrEqual => float_le(b, a),
        BinaryOperationKind::LessThan => float_lt(a, b),
        _ => float_le(a, b),
    }
}

/// Apply a binary operation to two objects and push the result onto the
/// current frame's operand stack. On a fatal error the state is unchanged.
pub fn binary_op(state: &mut State, kind: BinaryOperationKind, lhs: &Object, rhs: &Object) -> (r:
    Result<(), RuntimeError>)
    requires
        old(state).wf(),
    ensures
        final(state).wf(),
        match r {
            Ok(()) => {
                &&& binary_op_spec(kind, obj_view(*lhs), obj_view(*rhs)) matches Ok(v)
                &&& pushed_value(old(state)@, final(state)@, binary_op_spec(
                    kind,
                    obj_view(*lhs),
                    obj_view(*rhs),
                )->Ok_0)
            },
            Err(e) => binary_op_spec(kind, obj_view(*lhs), obj_view(*rhs)) == Err::<
                Value,
                RuntimeError,
            >(e) && final(state)@ == old(state)@,
        },
{
    match kind {
        BinaryOperationKind::Add
        | BinaryOperationKind::Subtract
        | BinaryOperationKind::Multiply
        | BinaryOperationKind::Divide
        | BinaryOperationKind::Remainder => {
            match (lhs.as_primitive(), rhs.as_primitive()) {
                (Some(a), Some(b)) => match arith_exec(kind, &a, &b) {
                    Ok(p) => {
                        let obj = Object {
                            value: Some(
                                crate::runtime::types::object::ObjectValue::Primitive(p),
                            ),
                            metatable: None,
                        };
                        state.push(&obj);
                        Ok(())
                    },
                    Err(e) => Err(e),
                },
                _ => Err(RuntimeError::TypeMismatch),
            }
        },
        BinaryOperationKind::Equal => {
            let b = boolean(obj_eq(lhs, rhs));
            state.push(&b);
            Ok(())
        },
        BinaryOperationKind::NotEqual => {
            let b = boolean(!obj_eq(lhs, rhs));
            state.push(&b);
            Ok(())
        },
        BinaryOperationKind::GreaterThan
        | BinaryOperationKind::GreaterThanOrEqual
        | BinaryOperationKind::LessThan
        | BinaryOperationKind::LessThanOrEqual => {
            match (lhs.as_primitive(), rhs.as_primitive()) {
                (Some(a), Some(b)) => match cmp_exec(kind, &a, &b) {
                    Ok(x) => {
                        let obj = boolean(x);
                        state.push(&obj);
                        Ok(())
                    },
                    Err(e) => Err(e),
                },
                _ => Err(RuntimeError::TypeMismatch),
            }
        },
        BinaryOperationKind::And => {
            match (lhs.as_bool(), rhs.as_bool()) {
                (Some(a), Some(b)) => {
                    let obj = boolean(a && b);
                    state.push(&obj);
                    Ok(())
                },
                _ => Err(RuntimeError::TypeMismatch),
            }
        },
        BinaryOperationKind::Or => {
            match (lhs.as_bool(), rhs.as_bool()) {
                (Some(a), Some(b)) => {
                    let obj = boolean(a || b);
                    state.push(&obj);
                    Ok(())
                },
                _ => Err(RuntimeError::TypeMismatch),
            }
        },
        BinaryOperationKind::Power => Err(RuntimeError::Unsupported),
    }
}

/// Add two objects and push the result.
pub fn add(state: &mut State, lhs: &Object, rhs: &Object) -> (r: Result<(), RuntimeError>)
    requires
        old(state).wf(),
    ensures
        final(state).wf(),
        match r {
            Ok(()) => pushed_value(old(state)@, final(state)@, binary_op_spec(
                BinaryOperationKind::Add,
                obj_view(*lhs),
                obj_view(*rhs),
            )->Ok_0) && binary_op_spec(BinaryOperationKind::Add, obj_view(*lhs), obj_view(*rhs))
                is Ok,
            Err(e) => binary_op_spec(BinaryOperationKind::Add, obj_view(*lhs), obj_view(*rhs))
                == Err::<Value, RuntimeError>(e) && final(state)@ == old(state)@,
        },
{
    binary_op(state, BinaryOperationKind::Add, lhs, rhs)
}

/// Subtract the right object from the left and push the result.
pub fn subtract(state: &mut State, lhs: &Object, rhs: &Object) -> (r: Result<(), RuntimeError>)
    requires
        old(state).wf(),
    ensures
        final(state).wf(),
        match r {
            Ok(()) => pushed_value(old(state)@, final(state)@, binary_op_spec(
                BinaryOperationKind::Subtract,
                obj_view(*lhs),
                obj_view(*rhs),
            )->Ok_0) && binary_op_spec(
                BinaryOperationKind::Subtract,
                obj_view(*lhs),
                obj_view(*rhs),
            ) is Ok,
            Err(e) => binary_op_spec(BinaryOperationKind::Subtract, obj_view(*lhs), obj_view(*rhs))
                == Err::<Value, RuntimeError>(e) && final(state)@ == old(state)@,
        },
{
    binary_op(state, BinaryOperationKind::Subtract, lhs, rhs)
}

/// Multiply two objects and push the result.
pub fn multiply(state: &mut State, lhs: &Object, rhs: &Object) -> (r: Result<(), RuntimeError>)
    requires
        old(state).wf(),
    ensures
        final(state).wf(),
        match r {
            Ok(()) => pushed_value(old(state)@, final(state)@, binary_op_spec(
                BinaryOperationKind::Multiply,
                obj_view(*lhs),
                obj_view(*rhs),
            )->Ok_0) && binary_op_spec(
                BinaryOperationKind::Multiply,
                obj_view(*lhs),
                obj_view(*rhs),
            ) is Ok,
            Err(e) => binary_op_spec(BinaryOperationKind::Multiply, obj_view(*lhs), obj_view(*rhs))
                == Err::<Value, RuntimeError>(e) && final(state)@ == old(state)@,
        },
{
    binary_op(state, BinaryOperationKind::Multiply, lhs, rhs)
}

/// Divide the left object by the right and push the result.
pub fn divide(state: &mut State, lhs: &Object, rhs: &Object) -> (r: Result<(), RuntimeError>)
    requires
        old(state).wf(),
    ensures
        final(state).wf(),
        match r {
            Ok(()) => pushed_value(old(state)@, final(state)@, binary_op_spec(
                BinaryOperationKind::Divide,
                obj_view(*lhs),
                obj_view(*rhs),
            )->Ok_0) && binary_op_spec(
                BinaryOperationKind::Divide,
                obj_view(*lhs),
                obj_view(*rhs),
            ) is Ok,
            Err(e) => binary_op_spec(BinaryOperationKind::Divide, obj_view(*lhs), obj_view(*rhs))
                == Err::<Value, RuntimeError>(e) && final(state)@ == old(state)@,
        },
{
    binary_op(state, BinaryOperationKind::Divide, lhs, rhs)
}

/// Take the remainder of the left object by the right and push the result.
pub fn remainder(state: &mut State, lhs: &Object, rhs: &Object) -> (r: Result<(), RuntimeError>)
    requires
        old(state).wf(),
    ensures
        final(state).wf(),
        match r {
            Ok(()) => pushed_value(old(state)@, final(state)@, binary_op_spec(
                BinaryOperationKind::Remainder,
                obj_view(*lhs),
                obj_view(*rhs),
            )->Ok_0) && binary_op_spec(
                BinaryOperationKind::Remainder,
                obj_view(*lhs),
                obj_view(*rhs),
            ) is Ok,
            Err(e) => binary_op_spec(
                BinaryOperationKind::Remainder,
                obj_view(*lhs),
                obj_view(*rhs),
            ) == Err::<Value, RuntimeError>(e) && final(state)@ == old(state)@,
        },
{
    binary_op(state, BinaryOperationKind::Remainder, lhs, rhs)
}

/// Push whether the two objects are equal.
pub fn equals(state: &mut State, a: &Object, b: &Object)
    requires
        old(state).wf(),
    ensures
        final(state).wf(),
        pushed_value(
            old(state)@,
            final(state)@,
            Value::Prim(PrimV::Boolean(val_eq(obj_view(*a), obj_view(*b)))),
        ),
{
    let r = boolean(obj_eq(a, b));
    state.push(&r);
}

/// Push whether the two objects are unequal.
pub fn not_equals(state: &mut State, a: &Object, b: &Object)
    requires
        old(state).wf(),
    ensures
        final(state).wf(),
        pushed_value(
            old(state)@,
            final(state)@,
            Value::Prim(PrimV::Boolean(!val_eq(obj_view(*a), obj_view(*b)))),
        ),
{
    let r = boolean(!obj_eq(a, b));
    state.push(&r);
}

/// Push whether the left object is numerically greater than the right.
pub fn greater_than(state: &mut State, lhs: &Object, rhs: &Object) -> (r: Result<
    (),
    RuntimeError,
>)
    requires
        old(state).wf(),
    ensures
        final(state).wf(),
        match r {
            Ok(()) => pushed_value(old(state)@, final(state)@, binary_op_spec(
                BinaryOperationKind::GreaterThan,
                obj_view(*lhs),
                obj_view(*rhs),
            )->Ok_0) && binary_op_spec(
                BinaryOperationKind::GreaterThan,
                obj_view(*lhs),
                obj_view(*rhs),
            ) is Ok,
            Err(e) => binary_op_spec(
                BinaryOperationKind::GreaterThan,
                obj_view(*lhs),
                obj_view(*rhs),
            ) == Err::<Value, RuntimeError>(e) && final(state)@ == old(state)@,
        },
{
    binary_op(state, BinaryOperationKind::GreaterThan, lhs, rhs)
}

/// Push whether the left object is numerically less than the right.
pub fn less_than(state: &mut State, lhs: &Object, rhs: &Object) -> (r: Result<(), RuntimeError>)
    requires
        old(state).wf(),
    ensures
        final(state).wf(),
        match r {
            Ok(()) => pushed_value(old(state)@, final(state)@, binary_op_spec(
                BinaryOperationKind::LessThan,
                obj_view(*lhs),
                obj_view(*rhs),
            )->Ok_0) && binary_op_spec(
                BinaryOperationKind::LessThan,
                obj_view(*lhs),
                obj_view(*rhs),
            ) is Ok,
            Err(e) => binary_op_spec(BinaryOperationKind::LessThan, obj_view(*lhs), obj_view(*rhs))
                == Err::<Value, RuntimeError>(e) && final(state)@ == old(state)@,
        },
{
    binary_op(state, BinaryOperationKind::LessThan, lhs, rhs)
}

/// Push whether the left object is numerically at least the right.
pub fn greater_than_or_equal(state: &mut State, lhs: &Object, rhs: &Object) -> (r: Result<
    (),
    RuntimeError,
>)
    requires
        old(state).wf(),
    ensures
        final(state).wf(),
        match r {
            Ok(()) => pushed_value(old(state)@, final(state)@, binary_op_spec(
                BinaryOperationKind::GreaterThanOrEqual,
                obj_view(*lhs),
                obj_view(*rhs),
            )->Ok_0) && binary_op_spec(
                BinaryOperationKind::GreaterThanOrEqual,
                obj_view(*lhs),
                obj_view(*rhs),
            ) is Ok,
            Err(e) => binary_op_spec(
                BinaryOperationKind::GreaterThanOrEqual,
                obj_view(*lhs),
                obj_view(*rhs),
            ) == Err::<Value, RuntimeError>(e) && final(state)@ == old(state)@,
        },
{
    binary_op(state, BinaryOperationKind::GreaterThanOrEqual, lhs, rhs)
}

/// Push whether the left object is numerically at most the right.
pub fn less_than_or_equal(state: &mut State, lhs: &Object, rhs: &Object) -> (r: Result<
    (),
    RuntimeError,
>)
    requires
        old(state).wf(),
    ensures
        final(state).wf(),
        match r {
            Ok(()) => pushed_value(old(state)@, final(state)@, binary_op_spec(
                BinaryOperationKind::LessThanOrEqual,
                obj_view(*lhs),
                obj_view(*rhs),
            )->Ok_0) && binary_op_spec(
                BinaryOperationKind::LessThanOrEqual,
                obj_view(*lhs),
                obj_view(*rhs),
            ) is Ok,
            Err(e) => binary_op_spec(
                BinaryOperationKind::LessThanOrEqual,
                obj_view(*lhs),
                obj_view(*rhs),
            ) == Err::<Value, RuntimeError>(e) && final(state)@ == old(state)@,
        },
{
    binary_op(state, BinaryOperationKind::LessThanOrEqual, lhs, rhs)
}

/// Push the conjunction of two boolean objects.
pub fn and(state: &mut State, lhs: &Object, rhs: &Object) -> (r: Result<(), RuntimeError>)
    requires
        old(state).wf(),
    ensures
        final(state).wf(),
        match r {
            Ok(()) => pushed_value(old(state)@, final(state)@, binary_op_spec(
                BinaryOperationKind::And,
                obj_view(*lhs),
                obj_view(*rhs),
            )->Ok_0) && binary_op_spec(BinaryOperationKind::And, obj_view(*lhs), obj_view(*rhs))
                is Ok,
            Err(e) => binary_op_spec(BinaryOperationKind::And, obj_view(*lhs), obj_view(*rhs))
                == Err::<Value, RuntimeError>(e) && final(state)@ == old(state)@,
        },
{
    binary_op(state, BinaryOperationKind::And, lhs, rhs)
}

/// Push the disjunction of two boolean objects.
pub fn or(state: &mut State, lhs: &Object, rhs: &Object) -> (r: Result<(), RuntimeError>)
    requires
        old(state).wf(),
    ensures
        final(state).wf(),
        match r {
            Ok(()) => pushed_value(old(state)@, final(state)@, binary_op_spec(
                BinaryOperationKind::Or,
                obj_view(*lhs),
                obj_view(*rhs),
            )->Ok_0) && binary_op_spec(BinaryOperationKind::Or, obj_view(*lhs), obj_view(*rhs))
                is Ok,
            Err(e) => binary_op_spec(BinaryOperationKind::Or, obj_view(*lhs), obj_view(*rhs))
                == Err::<Value, RuntimeError>(e) && final(state)@ == old(state)@,
        },
{
    binary_op(state, BinaryOperationKind::Or, lhs, rhs)
}

/// Negate an object and push the result: integers and floats are negated,
/// everything else yields nil.
pub fn negate(state: &mut State, obj: &Object)
    requires
        old(state).wf(),
    ensures
        final(state).wf(),
        pushed_value(old(state)@, final(state)@, Value::Prim(negate_spec(obj_view(*obj)))),
{
    let r = match obj.as_primitive() {
        Some(Primitive::Integer(x)) => {
            if x == i64::MIN {
                Object {
                    value: Some(
                        crate::runtime::types::object::ObjectValue::Primitive(
                            Primitive::Integer(i64::MIN),
                        ),
                    ),
                    metatable: None,
                }
            } else {
                Object {
                    value: Some(
                        crate::runtime::types::object::ObjectValue::Primitive(
                            Primitive::Integer(-x),
                        ),
                    ),
                    metatable: None,
                }
            }
        },
        Some(Primitive::Float(bits)) => crate::runtime::types::utilities::float(float_neg(bits)),
        _ => nil(),
    };
    state.push(&r);
}

} // verus!
