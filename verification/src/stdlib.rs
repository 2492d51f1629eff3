//! The standard library: built-in functions that are bound into the global
//! frame of every fresh state, together with their mathematical semantics.

use vstd::prelude::*;
use vstd::string::{StrSliceExecFns, StringExecFns};

use crate::compiler::ast::BinaryOperationKind;
use crate::numbers::{int_text, parse_u64_spec};
use crate::runtime::error::RuntimeError;
use crate::runtime::executor::CountOutcome;
use crate::runtime::state::{State, StateV, FrameV};
use crate::runtime::types::floats::{
    float_abs, float_abs_of, float_from_int, float_of_int, float_of_text, float_parse,
    float_round, float_round_of, float_text, float_text_of, float_trunc, float_trunc_of,
};
use crate::runtime::types::function::{FuncV, WrappedFunction};
use crate::runtime::types::object::{obj_view, Object, ObjectValue, Value};
use crate::runtime::types::operations::cmp_spec;
use crate::runtime::types::primitive::{PrimV, Primitive};
use crate::runtime::types::utilities::{chars_to_string, string, wrapped_function};

verus! {

/// The text that the built-in `string` produces for a value, or the fatal
/// error it raises: stringifying a table is unimplemented.
pub open spec fn stringify(v: Value) -> Result<Seq<char>, RuntimeError> {
    match v {
        Value::Vacant => Ok("nil"@),
        Value::Prim(PrimV::Nil) => Ok("nil"@),
        Value::Prim(PrimV::Integer(x)) => Ok(int_text(x)),
        Value::Prim(PrimV::Float(bits)) => Ok(float_text_of(bits)),
        Value::Prim(PrimV::Str(s)) => Ok(s),
        Value::Prim(PrimV::Boolean(x)) => Ok(
            if x {
                "true"@
            } else {
                "false"@
            },
        ),
        Value::Func(FuncV::Scripted(_)) => Ok("scripted function"@),
        Value::Func(FuncV::Wrapped(_)) => Ok("wrapped function"@),
        Value::Tbl(_) => Err(RuntimeError::Unsupported),
    }
}

/// The concatenation of the texts of the values, in order, or the first
/// fatal error.
pub open spec fn stringify_all(vs: Seq<Value>) -> Result<Seq<char>, RuntimeError>
    decreases vs,
{
    if vs.len() == 0 {
        Ok(Seq::empty())
    } else {
        match stringify(vs[0]) {
            Ok(t) => match stringify_all(vs.drop_first()) {
                Ok(rest) => Ok(t + rest),
                Err(e) => Err(e),
            },
            Err(e) => Err(e),
        }
    }
}

/// The running extreme of a fold of `>` (for `max`) or `<` (for `min`) over
/// the values, starting from `acc`; a fatal error on non-numeric values.
pub open spec fn extreme_spec(is_max: bool, acc: Value, rest: Seq<Value>) -> Result<
    Value,
    RuntimeError,
>
    decreases rest,
{
    if rest.len() == 0 {
        Ok(acc)
    } else {
        let kind = if is_max {
            BinaryOperationKind::GreaterThan
        } else {
            BinaryOperationKind::LessThan
        };
        match (rest[0], acc) {
            (Value::Prim(x), Value::Prim(y)) => match cmp_spec(kind, x, y) {
                Ok(true) => extreme_spec(is_max, rest[0], rest.drop_first()),
                Ok(false) => extreme_spec(is_max, acc, rest.drop_first()),
                Err(e) => Err(e),
            },
            _ => Err(RuntimeError::TypeMismatch),
        }
    }
}

/// The value that the built-in `int` produces for a primitive: identity on
/// integers, truncation on floats, 0/1 on booleans, an unsigned decimal
/// parse on strings (nil on parse failure or overflow), nil on nil.
pub open spec fn to_int_spec(p: PrimV) -> PrimV {
    match p {
        PrimV::Integer(x) => PrimV::Integer(x),
        PrimV::Float(bits) => PrimV::Integer(float_trunc_of(bits)),
        PrimV::Boolean(x) => PrimV::Integer(
            if x {
                1
            } else {
                0
            },
        ),
        PrimV::Str(s) => match parse_u64_spec(s) {
            Some(v) => if v <= i64::MAX as u64 {
                PrimV::Integer(v as i64)
            } else {
                PrimV::Nil
            },
            None => PrimV::Nil,
        },
        PrimV::Nil => PrimV::Nil,
    }
}

/// The value that the built-in `float` produces for a primitive: widening on
/// integers, identity on floats, 0/1 on booleans, a float parse on strings
/// (nil on parse failure), nil on nil.
pub open spec fn to_float_spec(p: PrimV) -> PrimV {
    match p {
        PrimV::Integer(x) => PrimV::Float(float_of_int(x)),
        PrimV::Float(bits) => PrimV::Float(bits),
        PrimV::Boolean(x) => PrimV::Float(
            float_of_int(
                if x {
                    1
                } else {
                    0
                },
            ),
        ),
        PrimV::Str(s) => if s.len() >= 0x2000_0000 {
            PrimV::Nil
        } else {
            match float_of_text(s) {
                Some(bits) => PrimV::Float(bits),
                None => PrimV::Nil,
            }
        },
        PrimV::Nil => PrimV::Nil,
    }
}

/// The value that the built-in `round` produces for a primitive, or a fatal
/// error on nil and strings.
pub open spec fn round_spec(p: PrimV) -> Result<PrimV, RuntimeError> {
    match p {
        PrimV::Integer(x) => Ok(PrimV::Integer(x)),
        PrimV::Float(bits) => Ok(PrimV::Integer(float_trunc_of(float_round_of(bits)))),
        PrimV::Boolean(x) => Ok(
            PrimV::Integer(
                if x {
                    1
                } else {
                    0
                },
            ),
        ),
        _ => Err(RuntimeError::TypeMismatch),
    }
}

/// The value that the built-in `abs` produces for a primitive: the absolute
/// value of integers (wrapping at the minimum) and floats, nil otherwise.
pub open spec fn abs_spec(p: PrimV) -> PrimV {
    match p {
        PrimV::Integer(x) => if x == i64::MIN {
            PrimV::Integer(i64::MIN)
        } else if x < 0 {
            PrimV::Integer(-x as i64)
        } else {
            PrimV::Integer(x)
        },
        PrimV::Float(bits) => PrimV::Float(float_abs_of(bits)),
        _ => PrimV::Nil,
    }
}

/// The text of one read line without its terminator: a single trailing
/// line feed is removed, and a carriage return before it.
pub open spec fn strip_line(s: Seq<char>) -> Seq<char> {
    let s1 = if s.len() > 0 && s.last() == '\n' {
        s.drop_last()
    } else {
        s
    };
    if s1.len() > 0 && s1.last() == '\r' {
        s1.drop_last()
    } else {
        s1
    }
}

/// The `n` values on top of the frame's operand stack, in popping order:
/// the first element is the top of the stack.
pub open spec fn top_values(ops: Seq<Value>, n: nat) -> Seq<Value> {
    Seq::new(n, |i: int| ops[ops.len() - 1 - i])
}

/// The semantics of one call of a built-in function, acting on the state
/// whose top frame holds the `n` arguments: what the call leaves on that
/// frame, what it appends to the output, and how many results it reports,
/// or the fatal error it raises.
///
/// The built-ins `exec` and `input` escape to the host (they compile source
/// text at run time or read standard input); the model does not determine
/// their outcome.
pub open spec fn interp_native(st: StateV, w: WrappedFunction, n: nat) -> CountOutcome {
    let ops = st.frames.last().ops;
    match w {
        WrappedFunction::Print => if ops.len() < n {
            CountOutcome::Fail { error: RuntimeError::StackUnderflow }
        } else {
            match stringify_all(top_values(ops, n)) {
                Ok(t) => CountOutcome::Done {
                    state: StateV {
                        frames: st.frames.update(
                            st.frames.len() - 1,
                            FrameV {
                                ops: ops.take(ops.len() - n),
                                locals: st.frames.last().locals,
                            },
                        ),
                        output: st.output + t + (if n > 0 {
                            seq!['\n']
                        } else {
                            Seq::empty()
                        }),
                        steps: st.steps,
                    },
                    count: 0,
                },
                Err(e) => CountOutcome::Fail { error: e },
            }
        },
        WrappedFunction::ToString => if n != 1 {
            CountOutcome::Fail { error: RuntimeError::ArgumentCount }
        } else if ops.len() < 1 {
            CountOutcome::Fail { error: RuntimeError::StackUnderflow }
        } else {
            match stringify(ops.last()) {
                Ok(t) => CountOutcome::Done {
                    state: replace_top_values(st, 1, seq![Value::Prim(PrimV::Str(t))]),
                    count: 1,
                },
                Err(e) => CountOutcome::Fail { error: e },
            }
        },
        WrappedFunction::Max => if n < 2 {
            CountOutcome::Fail { error: RuntimeError::ArgumentCount }
        } else if ops.len() < n {
            CountOutcome::Fail { error: RuntimeError::StackUnderflow }
        } else {
            match extreme_spec(true, top_values(ops, n)[0], top_values(ops, n).drop_first()) {
                Ok(v) => CountOutcome::Done { state: replace_top_values(st, n, seq![v]), count: 1 },
                Err(e) => CountOutcome::Fail { error: e },
            }
        },
        WrappedFunction::Min => if n < 2 {
            CountOutcome::Fail { error: RuntimeError::ArgumentCount }
        } else if ops.len() < n {
            CountOutcome::Fail { error: RuntimeError::StackUnderflow }
        } else {
            match extreme_spec(false, top_values(ops, n)[0], top_values(ops, n).drop_first()) {
                Ok(v) => CountOutcome::Done { state: replace_top_values(st, n, seq![v]), count: 1 },
                Err(e) => CountOutcome::Fail { error: e },
            }
        },
        WrappedFunction::ToInt => if n != 1 {
            CountOutcome::Fail { error: RuntimeError::ArgumentCount }
        } else if ops.len() < 1 {
            CountOutcome::Fail { error: RuntimeError::StackUnderflow }
        } else {
            match ops.last() {
                Value::Prim(p) => CountOutcome::Done {
                    state: replace_top_values(st, 1, seq![Value::Prim(to_int_spec(p))]),
                    count: 1,
                },
                _ => CountOutcome::Fail { error: RuntimeError::TypeMismatch },
            }
        },
        WrappedFunction::ToFloat => if n != 1 {
            CountOutcome::Fail { error: RuntimeError::ArgumentCount }
        } else if ops.len() < 1 {
            CountOutcome::Fail { error: RuntimeError::StackUnderflow }
        } else {
            match ops.last() {
                Value::Prim(p) => CountOutcome::Done {
                    state: replace_top_values(st, 1, seq![Value::Prim(to_float_spec(p))]),
                    count: 1,
                },
                _ => CountOutcome::Fail { error: RuntimeError::TypeMismatch },
            }
        },
        WrappedFunction::Round => if n != 1 {
            CountOutcome::Fail { error: RuntimeError::ArgumentCount }
        } else if ops.len() < 1 {
            CountOutcome::Fail { error: RuntimeError::StackUnderflow }
        } else {
            match ops.last() {
                Value::Prim(p) => match round_spec(p) {
                    Ok(v) => CountOutcome::Done {
                        state: replace_top_values(st, 1, seq![Value::Prim(v)]),
                        count: 1,
                    },
                    Err(e) => CountOutcome::Fail { error: e },
                },
                _ => CountOutcome::Fail { error: RuntimeError::TypeMismatch },
            }
        },
        WrappedFunction::Abs => if n != 1 {
            CountOutcome::Fail { error: RuntimeError::ArgumentCount }
        } else if ops.len() < 1 {
            CountOutcome::Fail { error: RuntimeError::StackUnderflow }
        } else {
            match ops.last() {
                Value::Prim(p) => CountOutcome::Done {
                    state: replace_top_values(st, 1, seq![Value::Prim(abs_spec(p))]),
                    count: 1,
                },
                _ => CountOutcome::Fail { error: RuntimeError::TypeMismatch },
            }
        },
        WrappedFunction::Exit => if n > 1 {
            CountOutcome::Fail { error: RuntimeError::ArgumentCount }
        } else if n == 1 && ops.len() >= 1 {
            match ops.last() {
                Value::Prim(PrimV::Integer(code)) => CountOutcome::Fail {
                    error: RuntimeError::Exit(code),
                },
                _ => CountOutcome::Fail { error: RuntimeError::TypeMismatch },
            }
        } else {
            CountOutcome::Fail { error: RuntimeError::Exit(0) }
        },
        WrappedFunction::Exec => CountOutcome::Hosted,
        WrappedFunction::Input => CountOutcome::Hosted,
    }
}

/// The state after removing the top `n` values of the current frame and
/// pushing the given values in their place.
pub open spec fn replace_top_values(st: StateV, n: nat, pushed: Seq<Value>) -> StateV {
    let ops = st.frames.last().ops;
    StateV {
        frames: st.frames.update(
            st.frames.len() - 1,
            FrameV { ops: ops.take(ops.len() - n) + pushed, locals: st.frames.last().locals },
        ),
        output: st.output,
        steps: st.steps,
    }
}

/// The bindings that [`register`] places in the global frame, applied to a
/// locals model in registration order.
pub open spec fn stdlib_bindings(locals: Seq<(Seq<char>, Value)>) -> Seq<(Seq<char>, Value)> {
    let l1 = crate::runtime::types::object::tblv_set(
        locals,
        "print"@,
        Value::Func(FuncV::Wrapped(WrappedFunction::Print)),
    );
    let l2 = crate::runtime::types::object::tblv_set(
        l1,
        "string"@,
        Value::Func(FuncV::Wrapped(WrappedFunction::ToString)),
    );
    let l3 = crate::runtime::types::object::tblv_set(
        l2,
        "max"@,
        Value::Func(FuncV::Wrapped(WrappedFunction::Max)),
    );
    let l4 = crate::runtime::types::object::tblv_set(
        l3,
        "min"@,
        Value::Func(FuncV::Wrapped(WrappedFunction::Min)),
    );
    let l5 = crate::runtime::types::object::tblv_set(
        l4,
        "int"@,
        Value::Func(FuncV::Wrapped(WrappedFunction::ToInt)),
    );
    let l6 = crate::runtime::types::object::tblv_set(
        l5,
        "float"@,
        Value::Func(FuncV::Wrapped(WrappedFunction::ToFloat)),
    );
    let l7 = crate::runtime::types::object::tblv_set(
        l6,
        "round"@,
        Value::Func(FuncV::Wrapped(WrappedFunction::Round)),
    );
    let l8 = crate::runtime::types::object::tblv_set(
        l7,
        "abs"@,
        Value::Func(FuncV::Wrapped(WrappedFunction::Abs)),
    );
    let l9 = crate::runtime::types::object::tblv_set(
        l8,
        "exec"@,
        Value::Func(FuncV::Wrapped(WrappedFunction::Exec)),
    );
    let l10 = crate::runtime::types::object::tblv_set(
        l9,
        "exit"@,
        Value::Func(FuncV::Wrapped(WrappedFunction::Exit)),
    );
    crate::runtime::types::object::tblv_set(
        l10,
        "input"@,
        Value::Func(FuncV::Wrapped(WrappedFunction::Input)),
    )
}

/// Relies on `std::io::Stdout::write_all`: writes the text to standard
/// output.
#[verifier::external_body]
fn emit(s: &str) {
    let _ = std::io::Write::write_all(&mut std::io::stdout(), s.as_bytes());
    let _ = std::io::Write::flush(&mut std::io::stdout());
}

/// Relies on `std::io::Stdin::read_line`: reads one line from standard
/// input, including its terminator; empty at end of input.
#[verifier::external_body]
fn read_line() -> (r: String) {
    let mut line = String::new();
    let _ = std::io::stdin().read_line(&mut line);
    line
}

/// Produce the text of an object, as the built-in `string` defines it.
pub fn stringify_exec(o: &Object) -> (r: Result<String, RuntimeError>)
    ensures
        match r {
            Ok(s) => stringify(obj_view(*o)) == Ok::<Seq<char>, RuntimeError>(s@),
            Err(e) => stringify(obj_view(*o)) == Err::<Seq<char>, RuntimeError>(e),
        },
{
    match &o.value {
        None => Ok("nil".to_owned()),
        Some(ObjectValue::Primitive(p)) => match p {
            Primitive::Nil => Ok("nil".to_owned()),
            Primitive::Integer(x) => Ok(crate::numbers::int_to_text(*x)),
            Primitive::Float(bits) => Ok(float_text(*bits)),
            Primitive::Str(s) => Ok(s.clone()),
            Primitive::Boolean(x) => if *x {
                Ok("true".to_owned())
            } else {
                Ok("false".to_owned())
            },
        },
        Some(ObjectValue::Function(f)) => match f {
            crate::runtime::types::function::Function::Scripted(_) => Ok(
                "scripted function".to_owned(),
            ),
            crate::runtime::types::function::Function::Wrapped(_) => Ok(
                "wrapped function".to_owned(),
            ),
        },
        Some(ObjectValue::Table(_)) => Err(RuntimeError::Unsupported),
    }
}

/// Pop `n` values off the current frame and return the concatenation of
/// their texts, in popping order.
fn collect_text(state: &mut State, n: usize) -> (r: Result<String, RuntimeError>)
    requires
        old(state).wf(),
        old(state)@.frames.last().ops.len() >= n,
    ensures
        final(state).wf(),
        final(state)@.steps <= old(state)@.steps,
        final(state)@.frames.len() >= 1,
        match r {
            Ok(s) => {
                &&& stringify_all(top_values(old(state)@.frames.last().ops, n as nat)) == Ok::<
                    Seq<char>,
                    RuntimeError,
                >(s@)
                &&& final(state)@ == crate::runtime::executor::sv_set_top_ops(
                    old(state)@,
                    old(state)@.frames.last().ops.take(
                        old(state)@.frames.last().ops.len() - n,
                    ),
                )
            },
            Err(e) => stringify_all(top_values(old(state)@.frames.last().ops, n as nat)) == Err::<
                Seq<char>,
                RuntimeError,
            >(e),
        },
    decreases n,
{
    let ghost ops0 = old(state)@.frames.last().ops;
    if n == 0 {
        proof {
            assert(top_values(ops0, 0nat) =~= Seq::<Value>::empty());
            assert(ops0.take(ops0.len() as int) =~= ops0);
            assert(final(state)@ =~= crate::runtime::executor::sv_set_top_ops(
                old(state)@,
                ops0.take(ops0.len() - 0),
            ));
        }
        Ok(String::new())
    } else {
        let top = match state.pop() {
            Some(o) => o,
            None => crate::runtime::types::utilities::nil(),
        };
        let mut text = match stringify_exec(&top) {
            Ok(t) => t,
            Err(e) => {
                proof {
                    assert(top_values(ops0, n as nat)[0] == ops0.last());
                }
                return Err(e);
            },
        };
        let rest = match collect_text(state, n - 1) {
            Ok(t) => t,
            Err(e) => {
                proof {
                    assert(top_values(ops0, n as nat)[0] == ops0.last());
                    assert(top_values(ops0, n as nat).drop_first() =~= top_values(
                        ops0.drop_last(),
                        (n - 1) as nat,
                    ));
                }
                return Err(e);
            },
        };
        text.append(rest.as_str());
        proof {
            assert(top_values(ops0, n as nat)[0] == ops0.last());
            assert(top_values(ops0, n as nat).drop_first() =~= top_values(
                ops0.drop_last(),
                (n - 1) as nat,
            ));
            assert(ops0.drop_last().take(ops0.drop_last().len() - (n - 1)) =~= ops0.take(
                ops0.len() - n,
            ));
            assert(final(state)@ =~= crate::runtime::executor::sv_set_top_ops(
                old(state)@,
                ops0.take(ops0.len() - n),
            ));
        }
        Ok(text)
    }
}

/// Convert an object to its string representation.
///
/// Pops 1 argument, the object; pushes 1 result, its text.
pub fn to_string(state: &mut State, n: usize) -> (r: Result<usize, RuntimeError>)
    requires
        old(state).wf(),
    ensures
        final(state).wf(),
        final(state)@.steps <= old(state)@.steps,
        final(state)@.frames.len() >= 1,
        match r {
            Ok(m) => interp_native(old(state)@, WrappedFunction::ToString, n as nat)
                == CountOutcome::Done { state: final(state)@, count: m as nat },
            Err(e) => interp_native(old(state)@, WrappedFunction::ToString, n as nat)
                == CountOutcome::Fail { error: e },
        },
{
    if n != 1 {
        return Err(RuntimeError::ArgumentCount);
    }
    let object = match state.pop() {
        Some(o) => o,
        None => {
            return Err(RuntimeError::StackUnderflow);
        },
    };
    let text = match stringify_exec(&object) {
        Ok(t) => t,
        Err(e) => {
            return Err(e);
        },
    };
    let result = string(text);
    state.push(&result);
    proof {
        let spec_state = replace_top_values(
            old(state)@,
            1,
            seq![
                Value::Prim(
                    PrimV::Str(
                        match stringify(old(state)@.frames.last().ops.last()) {
                            Ok(t) => t,
                            Err(_) => Seq::empty(),
                        },
                    ),
                ),
            ],
        );
        assert(old(state)@.frames.last().ops.take(old(state)@.frames.last().ops.len() - 1)
            =~= old(state)@.frames.last().ops.drop_last());
        assert(final(state)@ =~~= spec_state);
    }
    Ok(1)
}

/// Print the string representation of each argument, then a newline.
///
/// Pops `n` arguments; pushes no results.
pub fn print(state: &mut State, n: usize) -> (r: Result<usize, RuntimeError>)
    requires
        old(state).wf(),
    ensures
        final(state).wf(),
        final(state)@.steps <= old(state)@.steps,
        final(state)@.frames.len() >= 1,
        match r {
            Ok(m) => interp_native(old(state)@, WrappedFunction::Print, n as nat)
                == CountOutcome::Done { state: final(state)@, count: m as nat },
            Err(e) => interp_native(old(state)@, WrappedFunction::Print, n as nat)
                == CountOutcome::Fail { error: e },
        },
{
    if state.operand_stack_size() < n {
        return Err(RuntimeError::StackUnderflow);
    }
    let mut text = match collect_text(state, n) {
        Ok(t) => t,
        Err(e) => {
            return Err(e);
        },
    };
    if n != 0 {
        text.append("\n");
    }
    emit(text.as_str());
    state.output.append(text.as_str());
    proof {
        reveal_strlit("\n");
        assert("\n"@ =~= seq!['\n']);
        let t = match stringify_all(top_values(old(state)@.frames.last().ops, n as nat)) {
            Ok(t) => t,
            Err(_) => Seq::<char>::empty(),
        };
        assert(old(state)@.output + t + (if n > 0 {
            seq!['\n']
        } else {
            Seq::<char>::empty()
        }) =~= final(state)@.output);
        assert(interp_native(old(state)@, WrappedFunction::Print, n as nat)
            matches CountOutcome::Done { state: s, count: c } ==> s =~= final(state)@);
    }
    Ok(0)
}

/// Fold the comparison over `k` further popped values, keeping the extreme.
fn fold_extreme(state: &mut State, acc: Object, k: usize, is_max: bool) -> (r: Result<
    Object,
    RuntimeError,
>)
    requires
        old(state).wf(),
        old(state)@.frames.last().ops.len() >= k,
    ensures
        final(state).wf(),
        final(state)@.steps <= old(state)@.steps,
        final(state)@.frames.len() >= 1,
        match r {
            Ok(o) => extreme_spec(
                is_max,
                obj_view(acc),
                top_values(old(state)@.frames.last().ops, k as nat),
            ) == Ok::<Value, RuntimeError>(obj_view(o)) && final(state)@
                == crate::runtime::executor::sv_set_top_ops(
                old(state)@,
                old(state)@.frames.last().ops.take(old(state)@.frames.last().ops.len() - k),
            ),
            Err(e) => extreme_spec(
                is_max,
                obj_view(acc),
                top_values(old(state)@.frames.last().ops, k as nat),
            ) == Err::<Value, RuntimeError>(e),
        },
    decreases k,
{
    let ghost ops0 = old(state)@.frames.last().ops;
    if k == 0 {
        proof {
            assert(top_values(ops0, 0nat) =~= Seq::<Value>::empty());
            assert(ops0.take(ops0.len() as int) =~= ops0);
            assert(final(state)@ =~= crate::runtime::executor::sv_set_top_ops(
                old(state)@,
                ops0.take(ops0.len() - 0),
            ));
        }
        Ok(acc)
    } else {
        let current = match state.pop() {
            Some(o) => o,
            None => crate::runtime::types::utilities::nil(),
        };
        proof {
            assert(top_values(ops0, k as nat)[0] == ops0.last());
            assert(top_values(ops0, k as nat).drop_first() =~= top_values(
                ops0.drop_last(),
                (k - 1) as nat,
            ));
        }
        match (current.as_primitive(), acc.as_primitive()) {
            (Some(a), Some(b)) => {
                let kind = if is_max {
                    BinaryOperationKind::GreaterThan
                } else {
                    BinaryOperationKind::LessThan
                };
                match crate::runtime::types::operations::cmp_exec(kind, &a, &b) {
                    Ok(true) => {
                        let r = fold_extreme(state, current, k - 1, is_max);
                        proof {
                            assert(ops0.drop_last().take(ops0.drop_last().len() - (k - 1))
                                =~= ops0.take(ops0.len() - k));
                        }
                        r
                    },
                    Ok(false) => {
                        let r = fold_extreme(state, acc, k - 1, is_max);
                        proof {
                            assert(ops0.drop_last().take(ops0.drop_last().len() - (k - 1))
                                =~= ops0.take(ops0.len() - k));
                        }
                        r
                    },
                    Err(e) => Err(e),
                }
            },
            _ => Err(RuntimeError::TypeMismatch),
        }
    }
}

/// Compute the extreme of `n` popped values under `>` or `<`.
fn extremum(state: &mut State, n: usize, is_max: bool) -> (r: Result<usize, RuntimeError>)
    requires
        old(state).wf(),
    ensures
        final(state).wf(),
        final(state)@.steps <= old(state)@.steps,
        final(state)@.frames.len() >= 1,
        match r {
            Ok(m) => interp_native(
                old(state)@,
                if is_max {
                    WrappedFunction::Max
                } else {
                    WrappedFunction::Min
                },
                n as nat,
            ) == CountOutcome::Done { state: final(state)@, count: m as nat },
            Err(e) => interp_native(
                old(state)@,
                if is_max {
                    WrappedFunction::Max
                } else {
                    WrappedFunction::Min
                },
                n as nat,
            ) == CountOutcome::Fail { error: e },
        },
{
    if n < 2 {
        return Err(RuntimeError::ArgumentCount);
    }
    if state.operand_stack_size() < n {
        return Err(RuntimeError::StackUnderflow);
    }
    let ghost ops0 = old(state)@.frames.last().ops;
    let acc = match state.pop() {
        Some(o) => o,
        None => crate::runtime::types::utilities::nil(),
    };
    proof {
        assert(top_values(ops0, n as nat)[0] == ops0.last());
        assert(top_values(ops0, n as nat).drop_first() =~= top_values(
            ops0.drop_last(),
            (n - 1) as nat,
        ));
    }
    let result = match fold_extreme(state, acc, n - 1, is_max) {
        Ok(o) => o,
        Err(e) => {
            return Err(e);
        },
    };
    state.push(&result);
    proof {
        assert(ops0.drop_last().take(ops0.drop_last().len() - (n - 1)) =~= ops0.take(
            ops0.len() - n,
        ));
        let spec_out = interp_native(
            old(state)@,
            if is_max {
                WrappedFunction::Max
            } else {
                WrappedFunction::Min
            },
            n as nat,
        );
        assert(spec_out matches CountOutcome::Done { state: s, count: c } ==> s =~~= final(state)@);
    }
    Ok(1)
}

/// Compute the maximum of two or more numbers.
pub fn max(state: &mut State, n: usize) -> (r: Result<usize, RuntimeError>)
    requires
        old(state).wf(),
    ensures
        final(state).wf(),
        final(state)@.steps <= old(state)@.steps,
        final(state)@.frames.len() >= 1,
        match r {
            Ok(m) => interp_native(old(state)@, WrappedFunction::Max, n as nat)
                == CountOutcome::Done { state: final(state)@, count: m as nat },
            Err(e) => interp_native(old(state)@, WrappedFunction::Max, n as nat)
                == CountOutcome::Fail { error: e },
        },
{
    extremum(state, n, true)
}

/// Compute the minimum of two or more numbers.
pub fn min(state: &mut State, n: usize) -> (r: Result<usize, RuntimeError>)
    requires
        old(state).wf(),
    ensures
        final(state).wf(),
        final(state)@.steps <= old(state)@.steps,
        final(state)@.frames.len() >= 1,
        match r {
            Ok(m) => interp_native(old(state)@, WrappedFunction::Min, n as nat)
                == CountOutcome::Done { state: final(state)@, count: m as nat },
            Err(e) => interp_native(old(state)@, WrappedFunction::Min, n as nat)
                == CountOutcome::Fail { error: e },
        },
{
    extremum(state, n, false)
}

/// Replace the single popped primitive with the result of a conversion; the
/// shared shape of `int`, `float`, `round` and `abs`.
fn convert_one(state: &mut State, n: usize, w: WrappedFunction) -> (r: Result<
    usize,
    RuntimeError,
>)
    requires
        old(state).wf(),
        w == WrappedFunction::ToInt || w == WrappedFunction::ToFloat || w
            == WrappedFunction::Round || w == WrappedFunction::Abs,
    ensures
        final(state).wf(),
        final(state)@.steps <= old(state)@.steps,
        final(state)@.frames.len() >= 1,
        match r {
            Ok(m) => interp_native(old(state)@, w, n as nat) == CountOutcome::Done {
                state: final(state)@,
                count: m as nat,
            },
            Err(e) => interp_native(old(state)@, w, n as nat) == CountOutcome::Fail { error: e },
        },
{
    if n != 1 {
        return Err(RuntimeError::ArgumentCount);
    }
    let object = match state.pop() {
        Some(o) => o,
        None => {
            return Err(RuntimeError::StackUnderflow);
        },
    };
    let p = match object.as_primitive() {
        Some(p) => p,
        None => {
            return Err(RuntimeError::TypeMismatch);
        },
    };
    let converted: Primitive = match w {
        WrappedFunction::ToInt => match p {
            Primitive::Integer(x) => Primitive::Integer(x),
            Primitive::Float(bits) => Primitive::Integer(float_trunc(bits)),
            Primitive::Boolean(x) => Primitive::Integer(
                if x {
                    1
                } else {
                    0
                },
            ),
            Primitive::Str(s) => {
                let chars = crate::runtime::types::utilities::str_chars(s.as_str());
                match crate::numbers::parse_u64_exec(&chars) {
                    Some(v) => if v <= 0x7fff_ffff_ffff_ffffu64 {
                        Primitive::Integer(v as i64)
                    } else {
                        Primitive::Nil
                    },
                    None => Primitive::Nil,
                }
            },
            Primitive::Nil => Primitive::Nil,
        },
        WrappedFunction::ToFloat => match p {
            Primitive::Integer(x) => Primitive::Float(float_from_int(x)),
            Primitive::Float(bits) => Primitive::Float(bits),
            Primitive::Boolean(x) => Primitive::Float(
                float_from_int(
                    if x {
                        1
                    } else {
                        0
                    },
                ),
            ),
            Primitive::Str(s) => {
                if s.as_str().unicode_len() >= 0x2000_0000 {
                    Primitive::Nil
                } else {
                    match float_parse(s.as_str()) {
                        Some(bits) => Primitive::Float(bits),
                        None => Primitive::Nil,
                    }
                }
            },
            Primitive::Nil => Primitive::Nil,
        },
        WrappedFunction::Round => match p {
            Primitive::Integer(x) => Primitive::Integer(x),
            Primitive::Float(bits) => Primitive::Integer(float_trunc(float_round(bits))),
            Primitive::Boolean(x) => Primitive::Integer(
                if x {
                    1
                } else {
                    0
                },
            ),
            _ => {
                return Err(RuntimeError::TypeMismatch);
            },
        },
        _ => match p {
            Primitive::Integer(x) => if x == i64::MIN {
                Primitive::Integer(i64::MIN)
            } else if x < 0 {
                Primitive::Integer((-x) as i64)
            } else {
                Primitive::Integer(x)
            },
            Primitive::Float(bits) => Primitive::Float(float_abs(bits)),
            _ => Primitive::Nil,
        },
    };
    let result = Object {
        value: Some(ObjectValue::Primitive(converted)),
        metatable: None,
    };
    state.push(&result);
    proof {
        assert(old(state)@.frames.last().ops.take(old(state)@.frames.last().ops.len() - 1)
            =~= old(state)@.frames.last().ops.drop_last());
        let spec_out = interp_native(old(state)@, w, n as nat);
        assert(spec_out matches CountOutcome::Done { state: s, count: c } ==> s =~~= final(state)@);
    }
    Ok(1)
}

/// Convert a primitive value to an integer; parses strings as unsigned
/// decimal numbers.
pub fn to_int(state: &mut State, n: usize) -> (r: Result<usize, RuntimeError>)
    requires
        old(state).wf(),
    ensures
        final(state).wf(),
        final(state)@.steps <= old(state)@.steps,
        final(state)@.frames.len() >= 1,
        match r {
            Ok(m) => interp_native(old(state)@, WrappedFunction::ToInt, n as nat)
                == CountOutcome::Done { state: final(state)@, count: m as nat },
            Err(e) => interp_native(old(state)@, WrappedFunction::ToInt, n as nat)
                == CountOutcome::Fail { error: e },
        },
{
    convert_one(state, n, WrappedFunction::ToInt)
}

/// Convert a primitive value to a float; parses strings as float literals.
pub fn to_float(state: &mut State, n: usize) -> (r: Result<usize, RuntimeError>)
    requires
        old(state).wf(),
    ensures
        final(state).wf(),
        final(state)@.steps <= old(state)@.steps,
        final(state)@.frames.len() >= 1,
        match r {
            Ok(m) => interp_native(old(state)@, WrappedFunction::ToFloat, n as nat)
                == CountOutcome::Done { state: final(state)@, count: m as nat },
            Err(e) => interp_native(old(state)@, WrappedFunction::ToFloat, n as nat)
                == CountOutcome::Fail { error: e },
        },
{
    convert_one(state, n, WrappedFunction::ToFloat)
}

/// Round a number to the nearest integer, ties away from zero.
pub fn round(state: &mut State, n: usize) -> (r: Result<usize, RuntimeError>)
    requires
        old(state).wf(),
    ensures
        final(state).wf(),
        final(state)@.steps <= old(state)@.steps,
        final(state)@.frames.len() >= 1,
        match r {
            Ok(m) => interp_native(old(state)@, WrappedFunction::Round, n as nat)
                == CountOutcome::Done { state: final(state)@, count: m as nat },
            Err(e) => interp_native(old(state)@, WrappedFunction::Round, n as nat)
                == CountOutcome::Fail { error: e },
        },
{
    convert_one(state, n, WrappedFunction::Round)
}

/// Compute the absolute value of a number.
pub fn abs(state: &mut State, n: usize) -> (r: Result<usize, RuntimeError>)
    requires
        old(state).wf(),
    ensures
        final(state).wf(),
        final(state)@.steps <= old(state)@.steps,
        final(state)@.frames.len() >= 1,
        match r {
            Ok(m) => interp_native(old(state)@, WrappedFunction::Abs, n as nat)
                == CountOutcome::Done { state: final(state)@, count: m as nat },
            Err(e) => interp_native(old(state)@, WrappedFunction::Abs, n as nat)
                == CountOutcome::Fail { error: e },
        },
{
    convert_one(state, n, WrappedFunction::Abs)
}

/// Request the end of the program with the given status code (default 0).
/// The request propagates as the terminating outcome
/// [`RuntimeError::Exit`]; the embedder performs the actual termination.
pub fn exit(state: &mut State, n: usize) -> (r: Result<usize, RuntimeError>)
    requires
        old(state).wf(),
    ensures
        final(state).wf(),
        final(state)@.steps <= old(state)@.steps,
        final(state)@.frames.len() >= 1,
        match r {
            Ok(m) => interp_native(old(state)@, WrappedFunction::Exit, n as nat)
                == CountOutcome::Done { state: final(state)@, count: m as nat },
            Err(e) => interp_native(old(state)@, WrappedFunction::Exit, n as nat)
                == CountOutcome::Fail { error: e },
        },
{
    if n > 1 {
        return Err(RuntimeError::ArgumentCount);
    }
    if n == 1 && state.operand_stack_size() >= 1 {
        let object = match state.pop() {
            Some(o) => o,
            None => crate::runtime::types::utilities::nil(),
        };
        match object.as_primitive() {
            Some(Primitive::Integer(code)) => Err(RuntimeError::Exit(code)),
            _ => Err(RuntimeError::TypeMismatch),
        }
    } else {
        Err(RuntimeError::Exit(0))
    }
}

/// Print the optional prompt, read one line from standard input, strip its
/// line terminator and push it. Reading standard input is host behaviour
/// that the model does not determine, but the call's own outcome is owed:
/// it succeeds whenever the argument count fits and the prompt is a
/// string, and then exactly the stripped line stands where the argument
/// stood.
pub fn input(state: &mut State, n: usize) -> (r: Result<usize, RuntimeError>)
    requires
        old(state).wf(),
    ensures
        final(state).wf(),
        final(state)@.steps <= old(state)@.steps,
        final(state)@.frames.len() >= 1,
        interp_native(old(state)@, WrappedFunction::Input, n as nat) is Hosted,
        n > 1 ==> r == Err::<usize, RuntimeError>(RuntimeError::ArgumentCount),
        n <= 1 ==> {
            let popped = n == 1 && old(state)@.frames.last().ops.len() > 0;
            let st1 = if popped {
                crate::runtime::executor::sv_set_top_ops(
                    old(state)@,
                    old(state)@.frames.last().ops.drop_last(),
                )
            } else {
                old(state)@
            };
            let prompt = if popped {
                old(state)@.frames.last().ops.last()
            } else {
                Value::Prim(PrimV::Str(Seq::empty()))
            };
            if !(prompt matches Value::Prim(PrimV::Str(_))) {
                r == Err::<usize, RuntimeError>(RuntimeError::TypeMismatch)
            } else {
                r == Ok::<usize, RuntimeError>(1) && (exists|line: Seq<char>|
                    final(state)@ == crate::runtime::executor::sv_push_val(
                        st1,
                        Value::Prim(PrimV::Str(strip_line(line))),
                    ))
            }
        },
{
    if n > 1 {
        return Err(RuntimeError::ArgumentCount);
    }
    let object = if n == 1 {
        match state.pop() {
            Some(o) => o,
            None => string(String::new()),
        }
    } else {
        string(String::new())
    };
    let prompt = match object.as_primitive() {
        Some(Primitive::Str(p)) => p,
        _ => {
            return Err(RuntimeError::TypeMismatch);
        },
    };
    emit(prompt.as_str());
    let line = read_line();
    let ghost raw = line@;
    let mut chars = crate::runtime::types::utilities::str_chars(line.as_str());
    if chars.len() > 0 {
        let last = chars[chars.len() - 1];
        if last == '\n' {
            let _ = chars.pop();
        }
    }
    if chars.len() > 0 {
        let last = chars[chars.len() - 1];
        if last == '\r' {
            let _ = chars.pop();
        }
    }
    proof {
        assert(chars@ == strip_line(raw));
    }
    let result = string(chars_to_string(chars));
    state.push(&result);
    proof {
        assert(interp_native(old(state)@, WrappedFunction::Input, n as nat) is Hosted);
    }
    Ok(1)
}

/// Parse and execute a string as source code on the current frame, pushing
/// its residual value, or the text of a syntax error. Compiling source
/// text at run time makes the whole run host behaviour for the model, but
/// the call's own outcome is owed: it fails exactly on a wrong argument
/// count, a missing or non-string argument, an exhausted budget or a fatal
/// error of the executed script, and otherwise pushes exactly one value
/// where the argument stood (plus whatever the script itself left).
#[verifier::rlimit(100)]
#[verifier::spinoff_prover]
pub fn exec(state: &mut State, n: usize) -> (r: Result<usize, RuntimeError>)
    requires
        old(state).wf(),
    ensures
        final(state).wf(),
        final(state)@.steps <= old(state)@.steps,
        final(state)@.frames.len() >= 1,
        interp_native(old(state)@, WrappedFunction::Exec, n as nat) is Hosted,
        n != 1 ==> r == Err::<usize, RuntimeError>(RuntimeError::ArgumentCount),
        n == 1 && old(state)@.frames.last().ops.len() == 0 ==> r == Err::<usize, RuntimeError>(
            RuntimeError::StackUnderflow,
        ),
        n == 1 && old(state)@.frames.last().ops.len() > 0 && !(old(
            state,
        )@.frames.last().ops.last() matches Value::Prim(PrimV::Str(_))) ==> r == Err::<
            usize,
            RuntimeError,
        >(RuntimeError::TypeMismatch),
        n == 1 && old(state)@.frames.last().ops.len() > 0 && (old(
            state,
        )@.frames.last().ops.last() matches Value::Prim(PrimV::Str(_))) ==> {
            let source = old(state)@.frames.last().ops.last()->Prim_0->Str_0;
            let st1 = crate::runtime::executor::sv_set_top_ops(
                old(state)@,
                old(state)@.frames.last().ops.drop_last(),
            );
            if !crate::compiler::parser::grammar_accepts(source) {
                r == Ok::<usize, RuntimeError>(1) && (exists|t: Seq<char>|
                    final(state)@ == crate::runtime::executor::sv_push_val(
                        st1,
                        Value::Prim(PrimV::Str(t)),
                    ))
            } else if st1.steps == 0 {
                r == Err::<usize, RuntimeError>(RuntimeError::StepsExhausted)
            } else {
                match crate::compiler::parser::parse_spec(source) {
                    Some(tree) => match crate::runtime::executor::interp_exec(
                        crate::runtime::executor::sv_spend(st1),
                        crate::compiler::translator::translate_spec(tree),
                    ) {
                        CountOutcome::Done { state: st3, count: _ } => r == Ok::<
                            usize,
                            RuntimeError,
                        >(1) && final(state)@ == (
                        if crate::runtime::executor::sv_top(st3).ops.len() > 0 {
                            st3
                        } else {
                            crate::runtime::executor::sv_push_val(
                                st3,
                                Value::Prim(PrimV::Nil),
                            )
                        }),
                        CountOutcome::Fail { error } => r == Err::<usize, RuntimeError>(error),
                        CountOutcome::Hosted => true,
                    },
                    None => true,
                }
            }
        },
    decreases old(state)@.steps, 0int, 2int,
{
    if n != 1 {
        return Err(RuntimeError::ArgumentCount);
    }
    let object = match state.pop() {
        Some(o) => o,
        None => {
            return Err(RuntimeError::StackUnderflow);
        },
    };
    let ghost st1 = crate::runtime::executor::sv_set_top_ops(
        old(state)@,
        old(state)@.frames.last().ops.drop_last(),
    );
    proof {
        assert(state@ =~~= st1);
    }
    match object.as_primitive() {
        Some(Primitive::Str(source)) => {
            match crate::runtime::executor::execute_source(state, source.as_str()) {
                Ok(_) => {
                    let ghost st3 = state@;
                    let result = match state.pop() {
                        Some(o) => o,
                        None => crate::runtime::types::utilities::nil(),
                    };
                    state.push(&result);
                    proof {
                        if crate::runtime::executor::sv_top(st3).ops.len() > 0 {
                            assert(state@ =~~= st3);
                        } else {
                            assert(state@ =~~= crate::runtime::executor::sv_push_val(
                                st3,
                                Value::Prim(PrimV::Nil),
                            ));
                        }
                    }
                    Ok(1)
                },
                Err(crate::runtime::error::Error::Parse(parse_error)) => {
                    let message = parse_error.message();
                    let ghost text = message@;
                    let result = string(message);
                    state.push(&result);
                    proof {
                        assert(state@ =~~= crate::runtime::executor::sv_push_val(
                            st1,
                            Value::Prim(PrimV::Str(text)),
                        ));
                    }
                    Ok(1)
                },
                Err(crate::runtime::error::Error::Runtime(e)) => Err(e),
            }
        },
        _ => Err(RuntimeError::TypeMismatch),
    }
}

/// Run one call of a built-in function on the state whose current frame
/// holds the `n` arguments, and report how many results it left there.
pub fn call_native(state: &mut State, w: WrappedFunction, n: usize) -> (r: Result<
    usize,
    RuntimeError,
>)
    requires
        old(state).wf(),
    ensures
        final(state).wf(),
        final(state)@.steps <= old(state)@.steps,
        final(state)@.frames.len() >= 1,
        match r {
            Ok(m) => interp_native(old(state)@, w, n as nat) == CountOutcome::Done {
                state: final(state)@,
                count: m as nat,
            } || interp_native(old(state)@, w, n as nat) is Hosted,
            Err(e) => interp_native(old(state)@, w, n as nat) == CountOutcome::Fail { error: e }
                || interp_native(old(state)@, w, n as nat) is Hosted,
        },
    decreases old(state)@.steps, 0int, 3int,
{
    match w {
        WrappedFunction::Print => print(state, n),
        WrappedFunction::ToString => to_string(state, n),
        WrappedFunction::Max => max(state, n),
        WrappedFunction::Min => min(state, n),
        WrappedFunction::ToInt => to_int(state, n),
        WrappedFunction::ToFloat => to_float(state, n),
        WrappedFunction::Round => round(state, n),
        WrappedFunction::Abs => abs(state, n),
        WrappedFunction::Exec => exec(state, n),
        WrappedFunction::Exit => exit(state, n),
        WrappedFunction::Input => input(state, n),
    }
}

/// Bind every built-in function of the standard library in the global frame
/// of the state.
pub fn register(state: &mut State)
    requires
        old(state).wf(),
    ensures
        final(state).wf(),
        final(state)@.frames.len() == old(state)@.frames.len(),
        forall|i: int|
            1 <= i < old(state)@.frames.len() ==> final(state)@.frames[i] == old(
                state,
            )@.frames[i],
        final(state)@.frames[0].ops == old(state)@.frames[0].ops,
        final(state)@.frames[0].locals == stdlib_bindings(old(state)@.frames[0].locals),
        final(state)@.output == old(state)@.output,
        final(state)@.steps == old(state)@.steps,
{
    state.set_global("print", wrapped_function(WrappedFunction::Print));
    state.set_global("string", wrapped_function(WrappedFunction::ToString));
    state.set_global("max", wrapped_function(WrappedFunction::Max));
    state.set_global("min", wrapped_function(WrappedFunction::Min));
    state.set_global("int", wrapped_function(WrappedFunction::ToInt));
    state.set_global("float", wrapped_function(WrappedFunction::ToFloat));
    state.set_global("round", wrapped_function(WrappedFunction::Round));
    state.set_global("abs", wrapped_function(WrappedFunction::Abs));
    state.set_global("exec", wrapped_function(WrappedFunction::Exec));
    state.set_global("exit", wrapped_function(WrappedFunction::Exit));
    state.set_global("input", wrapped_function(WrappedFunction::Input));
}

} // verus!
