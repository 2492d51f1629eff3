//! The executor: walks a tree of opcodes and mutates a [`State`].
//!
//! The executor is structured as nested execution layers: a function call
//! runs a new layer on the function body, an if statement runs a layer on
//! the chosen branch, a loop runs a layer per iteration. A layer ends either
//! at the end of its opcode sequence or early, on a control-flow signal
//! ([`ControlFlow`]) that unwinds to the layer that consumes it.
//!
//! Every function of the executor is specified against the spec-level
//! interpreter (`interp_op` and its companions), which defines the semantics
//! of every opcode on the state model. Two built-ins escape the model:
//! `exec` compiles source text at run time and `input` reads standard input,
//! so a run that reaches them has the distinguished outcome
//! [`Outcome::Hosted`], about which the contracts promise only the generic
//! frame discipline.

use vstd::prelude::*;

use crate::runtime::bytecode::{
    clone_ops, lemma_ops_view, lemma_opv_size_pos, op_view, ops_view, opsv_size, opt_size,
    opv_size, Bytecode, OpCode, OpV,
};
use crate::runtime::error::{Error, RuntimeError};
use crate::runtime::state::{lemma_frames_view, lookup_spec, objs_view, FrameV, State, StateV};
use crate::runtime::types::function::{FuncV, Function};
use crate::runtime::types::object::{clone_object, obj_view, tblv_get, tblv_set, ObjectValue, Value};
use crate::runtime::types::operations::{binary_op_spec, unary_op_spec};
use crate::runtime::types::primitive::PrimV;
use crate::stdlib::{interp_native, top_values};

verus! {

/// A control-flow signal: how an execution layer ended. A signal unwinds
/// nested layers until the layer that consumes it (see the module
/// documentation).
#[derive(Clone, Copy, PartialEq, Eq, Structural)]
pub enum ControlFlow {
    /// The layer ran to the end of its opcodes.
    Normal,
    /// A `return` was executed, leaving the top `n` values for the caller;
    /// consumed by the enclosing function-call layer.
    Return(usize),
    /// A `break` was executed; consumed by the enclosing loop layer, which
    /// ends the loop.
    Break,
    /// A `continue` was executed; consumed by the enclosing loop layer,
    /// which proceeds to the next iteration.
    Continue,
}

/// The model of a control-flow signal.
pub ghost enum FlowV {
    Normal,
    Return(nat),
    Break,
    Continue,
}

/// The model of a signal.
pub open spec fn flow_view(cf: ControlFlow) -> FlowV {
    match cf {
        ControlFlow::Normal => FlowV::Normal,
        ControlFlow::Return(n) => FlowV::Return(n as nat),
        ControlFlow::Break => FlowV::Break,
        ControlFlow::Continue => FlowV::Continue,
    }
}

/// The outcome of running opcodes on a state model: a new state and a
/// signal, a fatal error, or an escape to the host (see the module
/// documentation).
pub ghost enum Outcome {
    Done { state: StateV, flow: FlowV },
    Fail { error: RuntimeError },
    Hosted,
}

/// The outcome of running a layer that reports how many values it produced
/// (a function body, or a whole program).
pub ghost enum CountOutcome {
    Done { state: StateV, count: nat },
    Fail { error: RuntimeError },
    Hosted,
}

/// The state with one step of its budget consumed.
pub open spec fn sv_spend(st: StateV) -> StateV {
    StateV { frames: st.frames, output: st.output, steps: (st.steps - 1) as u64 }
}

/// The state with its step budget capped at the given bound. The
/// interpreter never increases the budget, so wherever this appears the cap
/// is in fact the identity; it only makes that fact available to the
/// termination checker.
pub open spec fn sv_cap(st: StateV, bound: u64) -> StateV {
    StateV {
        frames: st.frames,
        output: st.output,
        steps: if st.steps <= bound {
            st.steps
        } else {
            bound
        },
    }
}

/// The current (topmost) frame of the state.
pub open spec fn sv_top(st: StateV) -> FrameV {
    st.frames.last()
}

/// The state with the current frame's operand stack replaced.
pub open spec fn sv_set_top_ops(st: StateV, ops: Seq<Value>) -> StateV {
    StateV {
        frames: st.frames.update(
            st.frames.len() - 1,
            FrameV { ops, locals: sv_top(st).locals },
        ),
        output: st.output,
        steps: st.steps,
    }
}

/// The state with a value pushed onto the current frame's operand stack.
pub open spec fn sv_push_val(st: StateV, v: Value) -> StateV {
    sv_set_top_ops(st, sv_top(st).ops.push(v))
}

/// The semantics of one opcode on a state model.
pub open spec fn interp_op(st: StateV, op: OpV) -> Outcome
    decreases st.steps, opv_size(op), 0int,
{
    match op {
        OpV::Load(name) => Outcome::Done {
            state: sv_push_val(st, crate::runtime::state::lookup_spec(st.frames, name)),
            flow: FlowV::Normal,
        },
        OpV::Store(name) => if sv_top(st).ops.len() == 0 {
            Outcome::Fail { error: RuntimeError::StackUnderflow }
        } else {
            Outcome::Done {
                state: StateV {
                    frames: st.frames.update(
                        st.frames.len() - 1,
                        FrameV {
                            ops: sv_top(st).ops.drop_last(),
                            locals: tblv_set(sv_top(st).locals, name, sv_top(st).ops.last()),
                        },
                    ),
                    output: st.output,
                    steps: st.steps,
                },
                flow: FlowV::Normal,
            }
        },
        OpV::GetKey(key) => if sv_top(st).ops.len() == 0 {
            Outcome::Fail { error: RuntimeError::StackUnderflow }
        } else {
            match sv_top(st).ops.last() {
                Value::Tbl(entries) => Outcome::Done {
                    state: sv_set_top_ops(
                        st,
                        sv_top(st).ops.drop_last().push(
                            match tblv_get(entries, key) {
                                Some(v) => v,
                                None => Value::Prim(PrimV::Nil),
                            },
                        ),
                    ),
                    flow: FlowV::Normal,
                },
                _ => Outcome::Fail { error: RuntimeError::NotATable },
            }
        },
        OpV::SetKey(key) => if sv_top(st).ops.len() < 2 {
            Outcome::Fail { error: RuntimeError::StackUnderflow }
        } else {
            match sv_top(st).ops[sv_top(st).ops.len() - 2] {
                Value::Tbl(_) => Outcome::Done {
                    state: sv_set_top_ops(st, sv_top(st).ops.take(sv_top(st).ops.len() - 2)),
                    flow: FlowV::Normal,
                },
                _ => Outcome::Fail { error: RuntimeError::NotATable },
            }
        },
        OpV::PushNil => Outcome::Done {
            state: sv_push_val(st, Value::Prim(PrimV::Nil)),
            flow: FlowV::Normal,
        },
        OpV::PushString(s) => Outcome::Done {
            state: sv_push_val(st, Value::Prim(PrimV::Str(s))),
            flow: FlowV::Normal,
        },
        OpV::PushInteger(x) => Outcome::Done {
            state: sv_push_val(st, Value::Prim(PrimV::Integer(x))),
            flow: FlowV::Normal,
        },
        OpV::PushFloat(x) => Outcome::Done {
            state: sv_push_val(st, Value::Prim(PrimV::Float(x))),
            flow: FlowV::Normal,
        },
        OpV::PushBool(x) => Outcome::Done {
            state: sv_push_val(st, Value::Prim(PrimV::Boolean(x))),
            flow: FlowV::Normal,
        },
        OpV::PushFunction(body) => Outcome::Done {
            state: sv_push_val(st, Value::Func(FuncV::Scripted(body))),
            flow: FlowV::Normal,
        },
        OpV::BinaryOperation(kind) => if sv_top(st).ops.len() < 2 {
            Outcome::Fail { error: RuntimeError::StackUnderflow }
        } else {
            let rhs = sv_top(st).ops.last();
            let lhs = sv_top(st).ops[sv_top(st).ops.len() - 2];
            match binary_op_spec(kind, lhs, rhs) {
                Ok(v) => Outcome::Done {
                    state: sv_set_top_ops(
                        st,
                        sv_top(st).ops.take(sv_top(st).ops.len() - 2).push(v),
                    ),
                    flow: FlowV::Normal,
                },
                Err(e) => Outcome::Fail { error: e },
            }
        },
        OpV::UnaryOperation(kind) => if sv_top(st).ops.len() == 0 {
            Outcome::Fail { error: RuntimeError::StackUnderflow }
        } else {
            match unary_op_spec(kind, sv_top(st).ops.last()) {
                Ok(v) => Outcome::Done {
                    state: sv_set_top_ops(st, sv_top(st).ops.drop_last().push(v)),
                    flow: FlowV::Normal,
                },
                Err(e) => Outcome::Fail { error: e },
            }
        },
        OpV::Call(n) => interp_call(st, n),
        OpV::Break => Outcome::Done { state: st, flow: FlowV::Break },
        OpV::Continue => Outcome::Done { state: st, flow: FlowV::Continue },
        OpV::Return(n) => Outcome::Done { state: st, flow: FlowV::Return(n) },
        OpV::If { condition, body, else_body } => interp_if(st, condition, body, else_body),
        OpV::For { initialization, condition, increment, body } => interp_for(
            st,
            initialization,
            condition,
            increment,
            body,
        ),
        OpV::While { condition, body } => interp_while(st, condition, body),
        OpV::Loop { body } => interp_loop(st, body),
    }
}

/// The semantics of a sequence of opcodes: run them in order until the end
/// or until one of them raises a signal, which ends the layer early.
pub open spec fn interp_ops(st: StateV, ops: Seq<OpV>) -> Outcome
    decreases st.steps, opsv_size(ops), 1int,
    via interp_ops_decreases
{
    if ops.len() == 0 {
        Outcome::Done { state: st, flow: FlowV::Normal }
    } else {
        match interp_op(st, ops[0]) {
            Outcome::Done { state: st2, flow: FlowV::Normal } => interp_ops(
                sv_cap(st2, st.steps),
                ops.drop_first(),
            ),
            Outcome::Done { state: st2, flow } => Outcome::Done { state: st2, flow },
            Outcome::Fail { error } => Outcome::Fail { error },
            Outcome::Hosted => Outcome::Hosted,
        }
    }
}

#[via_fn]
proof fn interp_ops_decreases(st: StateV, ops: Seq<OpV>) {
    if ops.len() > 0 {
        lemma_opv_size_pos(ops[0]);
    }
}

/// The semantics of running a sequence of opcodes as a whole program or a
/// function body: a `Return(n)` signal is consumed and reported as `n`
/// produced values; any other end reports zero.
pub open spec fn interp_exec(st: StateV, ops: Seq<OpV>) -> CountOutcome
    decreases st.steps, opsv_size(ops), 2int,
{
    match interp_ops(st, ops) {
        Outcome::Done { state: st2, flow: FlowV::Return(n) } => CountOutcome::Done {
            state: st2,
            count: n,
        },
        Outcome::Done { state: st2, flow: _ } => CountOutcome::Done { state: st2, count: 0 },
        Outcome::Fail { error } => CountOutcome::Fail { error },
        Outcome::Hosted => CountOutcome::Hosted,
    }
}

/// The semantics of the call protocol: consume one step, pop the callee and
/// the `n` arguments, run the callee in a fresh frame seeded with the
/// arguments, pop its reported results, pop the frame, and push the results
/// onto the caller's frame.
pub open spec fn interp_call(st: StateV, n: nat) -> Outcome
    decreases st.steps, 0int, 0int,
{
    if st.steps == 0 {
        Outcome::Fail { error: RuntimeError::StepsExhausted }
    } else {
        let st0 = sv_spend(st);
        let ops = sv_top(st0).ops;
        if ops.len() < n + 1 {
            Outcome::Fail { error: RuntimeError::StackUnderflow }
        } else {
            let callee = ops.last();
            let args = top_values(ops.drop_last(), n);
            let st1 = sv_set_top_ops(st0, ops.take(ops.len() - (n + 1)));
            let st2 = StateV {
                frames: st1.frames.push(FrameV { ops: args, locals: Seq::empty() }),
                output: st1.output,
                steps: st1.steps,
            };
            match callee {
                Value::Func(FuncV::Scripted(body)) => match interp_exec(st2, body) {
                    CountOutcome::Done { state: st3, count: m } => finish_call(st3, m),
                    CountOutcome::Fail { error } => Outcome::Fail { error },
                    CountOutcome::Hosted => Outcome::Hosted,
                },
                Value::Func(FuncV::Wrapped(w)) => match interp_native(st2, w, n) {
                    CountOutcome::Done { state: st3, count: m } => finish_call(st3, m),
                    CountOutcome::Fail { error } => Outcome::Fail { error },
                    CountOutcome::Hosted => Outcome::Hosted,
                },
                _ => Outcome::Fail { error: RuntimeError::NotAFunction },
            }
        }
    }
}

/// The tail of the call protocol: transfer the `m` reported results from
/// the callee frame to the frame below it and pop the callee frame.
pub open spec fn finish_call(st: StateV, m: nat) -> Outcome {
    if st.frames.len() < 2 || sv_top(st).ops.len() < m {
        Outcome::Fail { error: RuntimeError::StackUnderflow }
    } else {
        let rets = top_values(sv_top(st).ops, m);
        let st4 = StateV {
            frames: st.frames.drop_last(),
            output: st.output,
            steps: st.steps,
        };
        Outcome::Done { state: sv_set_top_ops(st4, sv_top(st4).ops + rets), flow: FlowV::Normal }
    }
}

/// Pop the condition value that a layer of condition opcodes left on the
/// current frame: the state without it and its boolean content, or the
/// fatal error.
pub open spec fn pop_condition(st: StateV) -> Result<(StateV, bool), RuntimeError> {
    if sv_top(st).ops.len() == 0 {
        Err(RuntimeError::StackUnderflow)
    } else {
        match sv_top(st).ops.last() {
            Value::Prim(PrimV::Boolean(b)) => Ok(
                (sv_set_top_ops(st, sv_top(st).ops.drop_last()), b),
            ),
            _ => Err(RuntimeError::ExpectedBoolean),
        }
    }
}

/// The semantics of an if statement: run the condition, pop a boolean, run
/// the chosen branch as a sub-layer, and re-raise whatever signal it ends
/// with.
pub open spec fn interp_if(
    st: StateV,
    condition: Seq<OpV>,
    body: Seq<OpV>,
    else_body: Option<Seq<OpV>>,
) -> Outcome
    decreases st.steps, opsv_size(condition) + opsv_size(body) + opt_size(else_body), 3int,
{
    match interp_exec(st, condition) {
        CountOutcome::Done { state: st1, count: _ } => match pop_condition(st1) {
            Ok((st2, b)) => if b {
                interp_ops(sv_cap(st2, st.steps), body)
            } else {
                match else_body {
                    Some(els) => interp_ops(sv_cap(st2, st.steps), els),
                    None => Outcome::Done { state: st2, flow: FlowV::Normal },
                }
            },
            Err(e) => Outcome::Fail { error: e },
        },
        CountOutcome::Fail { error } => Outcome::Fail { error },
        CountOutcome::Hosted => Outcome::Hosted,
    }
}

/// The semantics of a while loop: each iteration consumes one step, runs
/// the condition, pops a boolean, and runs the body as a sub-layer; the
/// body's `Break` ends the loop, `Continue` starts the next iteration, and
/// `Return` is re-raised.
pub open spec fn interp_while(st: StateV, condition: Seq<OpV>, body: Seq<OpV>) -> Outcome
    decreases st.steps, opsv_size(condition) + opsv_size(body), 3int,
{
    if st.steps == 0 {
        Outcome::Fail { error: RuntimeError::StepsExhausted }
    } else {
        let st0 = sv_spend(st);
        match interp_exec(st0, condition) {
            CountOutcome::Done { state: st1, count: _ } => match pop_condition(st1) {
                Ok((st2, b)) => if !b {
                    Outcome::Done { state: st2, flow: FlowV::Normal }
                } else {
                    match interp_ops(sv_cap(st2, st0.steps), body) {
                        Outcome::Done { state: st3, flow: FlowV::Break } => Outcome::Done {
                            state: st3,
                            flow: FlowV::Normal,
                        },
                        Outcome::Done { state: st3, flow: FlowV::Return(k) } => Outcome::Done {
                            state: st3,
                            flow: FlowV::Return(k),
                        },
                        Outcome::Done { state: st3, flow: _ } => interp_while(
                            sv_cap(st3, st0.steps),
                            condition,
                            body,
                        ),
                        Outcome::Fail { error } => Outcome::Fail { error },
                        Outcome::Hosted => Outcome::Hosted,
                    }
                },
                Err(e) => Outcome::Fail { error: e },
            },
            CountOutcome::Fail { error } => Outcome::Fail { error },
            CountOutcome::Hosted => Outcome::Hosted,
        }
    }
}

/// The semantics of a for loop: run the initialization once (its signal is
/// ignored), then iterate like a while loop, running the increment after
/// every iteration whose body ended normally or with `Continue`.
pub open spec fn interp_for(
    st: StateV,
    initialization: Option<Seq<OpV>>,
    condition: Option<Seq<OpV>>,
    increment: Option<Seq<OpV>>,
    body: Seq<OpV>,
) -> Outcome
    decreases st.steps,
        opt_size(initialization) + opt_size(condition) + opt_size(increment) + opsv_size(body),
        4int,
{
    match initialization {
        Some(init) => match interp_exec(st, init) {
            CountOutcome::Done { state: st1, count: _ } => interp_for_loop(
                sv_cap(st1, st.steps),
                condition,
                increment,
                body,
            ),
            CountOutcome::Fail { error } => Outcome::Fail { error },
            CountOutcome::Hosted => Outcome::Hosted,
        },
        None => interp_for_loop(st, condition, increment, body),
    }
}

/// The iterating part of a for loop; see [`interp_for`]. A missing
/// condition counts as true.
pub open spec fn interp_for_loop(
    st: StateV,
    condition: Option<Seq<OpV>>,
    increment: Option<Seq<OpV>>,
    body: Seq<OpV>,
) -> Outcome
    decreases st.steps, opt_size(condition) + opt_size(increment) + opsv_size(body), 3int,
{
    if st.steps == 0 {
        Outcome::Fail { error: RuntimeError::StepsExhausted }
    } else {
        let st0 = sv_spend(st);
        match condition {
            Some(c) => match interp_exec(st0, c) {
                CountOutcome::Done { state: st1, count: _ } => match pop_condition(st1) {
                    Ok((st2, b)) => if !b {
                        Outcome::Done { state: st2, flow: FlowV::Normal }
                    } else {
                        interp_for_iter(sv_cap(st2, st0.steps), condition, increment, body)
                    },
                    Err(e) => Outcome::Fail { error: e },
                },
                CountOutcome::Fail { error } => Outcome::Fail { error },
                CountOutcome::Hosted => Outcome::Hosted,
            },
            None => interp_for_iter(st0, condition, increment, body),
        }
    }
}

/// One iteration of a for loop whose condition held: run the body, then the
/// increment, then loop.
pub open spec fn interp_for_iter(
    st: StateV,
    condition: Option<Seq<OpV>>,
    increment: Option<Seq<OpV>>,
    body: Seq<OpV>,
) -> Outcome
    decreases st.steps, opt_size(condition) + opt_size(increment) + opsv_size(body), 4int,
{
    match interp_ops(st, body) {
        Outcome::Done { state: st3, flow: FlowV::Break } => Outcome::Done {
            state: st3,
            flow: FlowV::Normal,
        },
        Outcome::Done { state: st3, flow: FlowV::Return(k) } => Outcome::Done {
            state: st3,
            flow: FlowV::Return(k),
        },
        Outcome::Done { state: st3, flow: _ } => match increment {
            Some(inc) => match interp_exec(sv_cap(st3, st.steps), inc) {
                CountOutcome::Done { state: st4, count: _ } => interp_for_loop(
                    sv_cap(st4, st.steps),
                    condition,
                    increment,
                    body,
                ),
                CountOutcome::Fail { error } => Outcome::Fail { error },
                CountOutcome::Hosted => Outcome::Hosted,
            },
            None => interp_for_loop(sv_cap(st3, st.steps), condition, increment, body),
        },
        Outcome::Fail { error } => Outcome::Fail { error },
        Outcome::Hosted => Outcome::Hosted,
    }
}

/// The semantics of an infinite loop: each iteration consumes one step and
/// runs the body; `Break` ends the loop, `Return` is re-raised, and both
/// `Continue` and a normal end start the next iteration.
pub open spec fn interp_loop(st: StateV, body: Seq<OpV>) -> Outcome
    decreases st.steps, opsv_size(body), 3int,
{
    if st.steps == 0 {
        Outcome::Fail { error: RuntimeError::StepsExhausted }
    } else {
        let st0 = sv_spend(st);
        match interp_ops(st0, body) {
            Outcome::Done { state: st1, flow: FlowV::Break } => Outcome::Done {
                state: st1,
                flow: FlowV::Normal,
            },
            Outcome::Done { state: st1, flow: FlowV::Return(k) } => Outcome::Done {
                state: st1,
                flow: FlowV::Return(k),
            },
            Outcome::Done { state: st1, flow: _ } => interp_loop(sv_cap(st1, st0.steps), body),
            Outcome::Fail { error } => Outcome::Fail { error },
            Outcome::Hosted => Outcome::Hosted,
        }
    }
}

/// Consume one step of the state's budget, or fail if it has run out.
fn spend_step(state: &mut State) -> (r: Result<(), RuntimeError>)
    ensures
        final(state).wf() == old(state).wf(),
        match r {
            Ok(()) => old(state)@.steps > 0 && final(state)@ == sv_spend(old(state)@),
            Err(e) => e == RuntimeError::StepsExhausted && old(state)@.steps == 0 && final(state)@
                == old(state)@,
        },
{
    if state.steps == 0 {
        Err(RuntimeError::StepsExhausted)
    } else {
        state.steps = state.steps - 1;
        proof {
            assert(final(state)@ =~~= sv_spend(old(state)@));
        }
        Ok(())
    }
}

/// Pop the two operands of a binary operation and push its result.
///
/// Stack: `[lhs, rhs] -> [result]`
pub fn execute_binary_operation(state: &mut State, kind: crate::compiler::ast::BinaryOperationKind) -> (r: Result<(), RuntimeError>)
    requires
        old(state).wf(),
    ensures
        final(state).wf(),
        final(state)@.steps <= old(state)@.steps,
        final(state)@.frames.len() >= 1,
        match r {
            Ok(()) => interp_op(old(state)@, OpV::BinaryOperation(kind)) == (Outcome::Done {
                state: final(state)@,
                flow: FlowV::Normal,
            }),
            Err(e) => interp_op(old(state)@, OpV::BinaryOperation(kind)) == (Outcome::Fail {
                error: e,
            }),
        },
{
    let right = match state.pop() {
        Some(o) => o,
        None => {
            return Err(RuntimeError::StackUnderflow);
        },
    };
    let left = match state.pop() {
        Some(o) => o,
        None => {
            return Err(RuntimeError::StackUnderflow);
        },
    };
    match crate::runtime::types::operations::binary_op(state, kind, &left, &right) {
        Ok(()) => {
            proof {
                let ops0 = old(state)@.frames.last().ops;
                assert(ops0.drop_last().drop_last() =~= ops0.take(ops0.len() - 2));
                let v = crate::runtime::types::operations::binary_op_spec(
                    kind,
                    obj_view(left),
                    obj_view(right),
                )->Ok_0;
                assert(interp_op(old(state)@, OpV::BinaryOperation(kind)) matches Outcome::Done {
                    state: s,
                    flow: f,
                } ==> s =~~= final(state)@);
            }
            Ok(())
        },
        Err(e) => Err(e),
    }
}

/// Pop the operand of a unary operation and push its result.
///
/// Stack: `[value] -> [result]`
pub fn execute_unary_operation(state: &mut State, kind: crate::compiler::ast::UnaryOperationKind) -> (r: Result<(), RuntimeError>)
    requires
        old(state).wf(),
    ensures
        final(state).wf(),
        final(state)@.steps <= old(state)@.steps,
        final(state)@.frames.len() >= 1,
        match r {
            Ok(()) => interp_op(old(state)@, OpV::UnaryOperation(kind)) == (Outcome::Done {
                state: final(state)@,
                flow: FlowV::Normal,
            }),
            Err(e) => interp_op(old(state)@, OpV::UnaryOperation(kind)) == (Outcome::Fail {
                error: e,
            }),
        },
{
    let operand = match state.pop() {
        Some(o) => o,
        None => {
            return Err(RuntimeError::StackUnderflow);
        },
    };
    match kind {
        crate::compiler::ast::UnaryOperationKind::Negate => {
            crate::runtime::types::operations::negate(state, &operand);
            proof {
                assert(interp_op(old(state)@, OpV::UnaryOperation(kind)) matches Outcome::Done {
                    state: s,
                    flow: f,
                } ==> s =~~= final(state)@);
            }
            Ok(())
        },
        crate::compiler::ast::UnaryOperationKind::Not => Err(RuntimeError::Unsupported),
    }
}

/// Execute a function call: pop the callee and `n` arguments, run the
/// callee in a fresh frame seeded with the arguments, transfer its results
/// back, and pop the frame.
///
/// Stack: `[arg n-1, ..., arg 0, function] -> [ret m-1, ..., ret 0]`
#[verifier::rlimit(100)]
#[verifier::spinoff_prover]
pub fn execute_function_call(state: &mut State, n: usize) -> (r: Result<(), RuntimeError>)
    requires
        old(state).wf(),
    ensures
        final(state).wf(),
        final(state)@.steps <= old(state)@.steps,
        final(state)@.frames.len() >= 1,
        match r {
            Ok(()) => interp_call(old(state)@, n as nat) == (Outcome::Done {
                state: final(state)@,
                flow: FlowV::Normal,
            }) || interp_call(old(state)@, n as nat) is Hosted,
            Err(e) => interp_call(old(state)@, n as nat) == (Outcome::Fail { error: e })
                || interp_call(old(state)@, n as nat) is Hosted,
        },
    decreases state.steps, 0int, 2int,
{
    match spend_step(state) {
        Ok(()) => {},
        Err(e) => {
            return Err(e);
        },
    }
    let ghost st0 = sv_spend(old(state)@);
    let ghost ops0 = sv_top(st0).ops;
    let callee = match state.pop() {
        Some(o) => o,
        None => {
            return Err(RuntimeError::StackUnderflow);
        },
    };
    if state.operand_stack_size() < n {
        return Err(RuntimeError::StackUnderflow);
    }
    let func = match callee.value {
        Some(ObjectValue::Function(f)) => f,
        _ => {
            return Err(RuntimeError::NotAFunction);
        },
    };
    let args = state.pop_n(n);
    state.push_frame();
    state.push_all(&args);
    let ghost st2 = StateV {
        frames: sv_set_top_ops(st0, ops0.take(ops0.len() - (n + 1))).frames.push(
            FrameV { ops: top_values(ops0.drop_last(), n as nat), locals: Seq::empty() },
        ),
        output: st0.output,
        steps: st0.steps,
    };
    proof {
        crate::runtime::state::lemma_objs_view(args@);
        assert(objs_view(args@) =~= top_values(ops0.drop_last(), n as nat));
        assert(ops0.drop_last().take(ops0.drop_last().len() - n) =~= ops0.take(
            ops0.len() - (n + 1),
        ));
        assert(Seq::<Value>::empty() + objs_view(args@) =~= objs_view(args@));
        assert(state@ =~~= st2);
    }
    let m: usize = match func {
        Function::Scripted(sf) => {
            match execute_vec(state, &sf.bytecode.inner) {
                Ok(m) => m,
                Err(e) => {
                    return Err(e);
                },
            }
        },
        Function::Wrapped(w) => {
            match crate::stdlib::call_native(state, w, n) {
                Ok(m) => m,
                Err(e) => {
                    return Err(e);
                },
            }
        },
    };
    if state.operand_stack_size() < m {
        return Err(RuntimeError::StackUnderflow);
    }
    proof {
        lemma_frames_view(state.stack@);
    }
    if state.stack.len() < 2 {
        return Err(RuntimeError::StackUnderflow);
    }
    let ghost st3 = state@;
    let rets = state.pop_n(m);
    state.pop_frame();
    state.push_all(&rets);
    proof {
        crate::runtime::state::lemma_objs_view(rets@);
        assert(objs_view(rets@) =~= top_values(sv_top(st3).ops, m as nat));
        assert(finish_call(st3, m as nat) matches Outcome::Done { state: s, flow: f } ==> s =~~=
            final(state)@) by {
            if st3.frames.len() >= 2 && sv_top(st3).ops.len() >= m {
                let st4 = StateV {
                    frames: st3.frames.drop_last(),
                    output: st3.output,
                    steps: st3.steps,
                };
                assert(final(state)@.frames =~= st4.frames.update(
                    st4.frames.len() - 1,
                    FrameV {
                        ops: sv_top(st4).ops + top_values(sv_top(st3).ops, m as nat),
                        locals: sv_top(st4).locals,
                    },
                ));
            }
        }
    }
    Ok(())
}

/// Run the opcodes of a sequence, from position `i` on, as one execution
/// layer.
fn execute_ops(state: &mut State, ops: &Vec<OpCode>, i: usize) -> (r: Result<
    ControlFlow,
    RuntimeError,
>)
    requires
        old(state).wf(),
        i <= ops@.len(),
    ensures
        final(state).wf(),
        final(state)@.steps <= old(state)@.steps,
        final(state)@.frames.len() >= 1,
        match r {
            Ok(cf) => interp_ops(old(state)@, ops_view(ops@).skip(i as int)) == (Outcome::Done {
                state: final(state)@,
                flow: flow_view(cf),
            }) || interp_ops(old(state)@, ops_view(ops@).skip(i as int)) is Hosted,
            Err(e) => interp_ops(old(state)@, ops_view(ops@).skip(i as int)) == (Outcome::Fail {
                error: e,
            }) || interp_ops(old(state)@, ops_view(ops@).skip(i as int)) is Hosted,
        },
    decreases state.steps, opsv_size(ops_view(ops@).skip(i as int)), 1int,
{
    proof {
        lemma_ops_view(ops@);
    }
    if i == ops.len() {
        proof {
            assert(ops_view(ops@).skip(i as int) =~= Seq::<OpV>::empty());
        }
        Ok(ControlFlow::Normal)
    } else {
        let ghost vs = ops_view(ops@).skip(i as int);
        proof {
            assert(vs[0] == op_view(ops@[i as int]));
            assert(vs.drop_first() =~= ops_view(ops@).skip(i + 1));
            crate::runtime::bytecode::lemma_opsv_size_parts(vs);
            lemma_opv_size_pos(vs[0]);
        }
        let cf = match execute_operation(state, &ops[i]) {
            Ok(c) => c,
            Err(e) => {
                return Err(e);
            },
        };
        match cf {
            ControlFlow::Normal => {
                proof {
                    assert(sv_cap(state@, old(state)@.steps) =~~= state@);
                }
                execute_ops(state, ops, i + 1)
            },
            _ => Ok(cf),
        }
    }
}

/// Run the given opcodes on the given state as a new execution layer.
///
/// Stack: the layer may do anything to the current frame's operand stack.
pub fn run_execution_layer(state: &mut State, bytecode: &Bytecode) -> (r: Result<
    ControlFlow,
    RuntimeError,
>)
    requires
        old(state).wf(),
    ensures
        final(state).wf(),
        final(state)@.steps <= old(state)@.steps,
        final(state)@.frames.len() >= 1,
        match r {
            Ok(cf) => interp_ops(old(state)@, ops_view(bytecode.inner@)) == (Outcome::Done {
                state: final(state)@,
                flow: flow_view(cf),
            }) || interp_ops(old(state)@, ops_view(bytecode.inner@)) is Hosted,
            Err(e) => interp_ops(old(state)@, ops_view(bytecode.inner@)) == (Outcome::Fail {
                error: e,
            }) || interp_ops(old(state)@, ops_view(bytecode.inner@)) is Hosted,
        },
    decreases state.steps, opsv_size(ops_view(bytecode.inner@)), 2int,
{
    proof {
        assert(ops_view(bytecode.inner@).skip(0) =~= ops_view(bytecode.inner@));
    }
    execute_ops(state, &bytecode.inner, 0)
}

/// Run the given opcodes as a whole program or function body and report how
/// many values a `return` left on the current frame (zero without one).
fn execute_vec(state: &mut State, ops: &Vec<OpCode>) -> (r: Result<usize, RuntimeError>)
    requires
        old(state).wf(),
    ensures
        final(state).wf(),
        final(state)@.steps <= old(state)@.steps,
        final(state)@.frames.len() >= 1,
        match r {
            Ok(m) => interp_exec(old(state)@, ops_view(ops@)) == (CountOutcome::Done {
                state: final(state)@,
                count: m as nat,
            }) || interp_exec(old(state)@, ops_view(ops@)) is Hosted,
            Err(e) => interp_exec(old(state)@, ops_view(ops@)) == (CountOutcome::Fail {
                error: e,
            }) || interp_exec(old(state)@, ops_view(ops@)) is Hosted,
        },
    decreases state.steps, opsv_size(ops_view(ops@)), 2int,
{
    proof {
        assert(ops_view(ops@).skip(0) =~= ops_view(ops@));
    }
    match execute_ops(state, ops, 0) {
        Ok(ControlFlow::Return(m)) => Ok(m),
        Ok(_) => Ok(0),
        Err(e) => Err(e),
    }
}

/// Execute the given bytecode on the given state and report how many values
/// a top-level `return` left on the current frame (zero without one).
pub fn execute(state: &mut State, bytecode: &Bytecode) -> (r: Result<usize, RuntimeError>)
    requires
        old(state).wf(),
    ensures
        final(state).wf(),
        final(state)@.steps <= old(state)@.steps,
        final(state)@.frames.len() >= 1,
        match r {
            Ok(m) => interp_exec(old(state)@, ops_view(bytecode.inner@)) == (CountOutcome::Done {
                state: final(state)@,
                count: m as nat,
            }) || interp_exec(old(state)@, ops_view(bytecode.inner@)) is Hosted,
            Err(e) => interp_exec(old(state)@, ops_view(bytecode.inner@)) == (CountOutcome::Fail {
                error: e,
            }) || interp_exec(old(state)@, ops_view(bytecode.inner@)) is Hosted,
        },
    decreases state.steps, opsv_size(ops_view(bytecode.inner@)), 3int,
{
    execute_vec(state, &bytecode.inner)
}

/// Run a layer of condition opcodes and pop the boolean it produced.
fn evaluate_condition(state: &mut State, condition: &Vec<OpCode>) -> (r: Result<
    bool,
    RuntimeError,
>)
    requires
        old(state).wf(),
    ensures
        final(state).wf(),
        final(state)@.steps <= old(state)@.steps,
        final(state)@.frames.len() >= 1,
        match r {
            Ok(b) => (match interp_exec(old(state)@, ops_view(condition@)) {
                CountOutcome::Done { state: st1, count: _ } => pop_condition(st1) == Ok::<
                    (StateV, bool),
                    RuntimeError,
                >((final(state)@, b)),
                CountOutcome::Fail { error: _ } => false,
                CountOutcome::Hosted => true,
            }),
            Err(e) => (match interp_exec(old(state)@, ops_view(condition@)) {
                CountOutcome::Done { state: st1, count: _ } => pop_condition(st1) == Err::<
                    (StateV, bool),
                    RuntimeError,
                >(e),
                CountOutcome::Fail { error: err } => err == e,
                CountOutcome::Hosted => true,
            }),
        },
    decreases state.steps, opsv_size(ops_view(condition@)), 3int,
{
    match execute_vec(state, condition) {
        Ok(_) => {},
        Err(e) => {
            return Err(e);
        },
    }
    let value = match state.pop() {
        Some(o) => o,
        None => {
            return Err(RuntimeError::StackUnderflow);
        },
    };
    match value.as_bool() {
        Some(b) => {
            proof {
                if !(interp_exec(old(state)@, ops_view(condition@)) is Hosted) {
                    assert(interp_exec(old(state)@, ops_view(condition@))
                        matches CountOutcome::Done { state: st1, count: _ } ==> (
                    pop_condition(st1) matches Ok((s2, bb)) ==> s2 =~~= final(state)@));
                }
            }
            Ok(b)
        },
        None => Err(RuntimeError::ExpectedBoolean),
    }
}

/// Execute an if statement, running the `if` body or the `else` body as a
/// sub-layer and re-raising its signal.
pub fn execute_if_statement(
    state: &mut State,
    condition: &Vec<OpCode>,
    body: &Vec<OpCode>,
    else_body: &Option<Vec<OpCode>>,
) -> (r: Result<ControlFlow, RuntimeError>)
    requires
        old(state).wf(),
    ensures
        final(state).wf(),
        final(state)@.steps <= old(state)@.steps,
        final(state)@.frames.len() >= 1,
        match r {
            Ok(cf) => interp_if(
                old(state)@,
                ops_view(condition@),
                ops_view(body@),
                opt_ops_view(else_body),
            ) == (Outcome::Done { state: final(state)@, flow: flow_view(cf) }) || interp_if(
                old(state)@,
                ops_view(condition@),
                ops_view(body@),
                opt_ops_view(else_body),
            ) is Hosted,
            Err(e) => interp_if(
                old(state)@,
                ops_view(condition@),
                ops_view(body@),
                opt_ops_view(else_body),
            ) == (Outcome::Fail { error: e }) || interp_if(
                old(state)@,
                ops_view(condition@),
                ops_view(body@),
                opt_ops_view(else_body),
            ) is Hosted,
        },
    decreases state.steps,
        opsv_size(ops_view(condition@)) + opsv_size(ops_view(body@)) + opt_size(
            opt_ops_view(else_body),
        ),
        4int,
{
    let b = match evaluate_condition(state, condition) {
        Ok(b) => b,
        Err(e) => {
            return Err(e);
        },
    };
    proof {
        assert(sv_cap(state@, old(state)@.steps) =~~= state@);
        assert(ops_view(body@).skip(0) =~= ops_view(body@));
    }
    if b {
        execute_ops(state, body, 0)
    } else {
        match else_body {
            Some(els) => {
                proof {
                    assert(ops_view(els@).skip(0) =~= ops_view(els@));
                }
                execute_ops(state, els, 0)
            },
            None => Ok(ControlFlow::Normal),
        }
    }
}

/// The model of an optional opcode sequence.
pub open spec fn opt_ops_view(o: &Option<Vec<OpCode>>) -> Option<Seq<OpV>> {
    match o {
        Some(v) => Some(ops_view(v@)),
        None => None,
    }
}

/// Execute a while loop; see [`interp_while`] for its semantics.
pub fn execute_while_loop(state: &mut State, condition: &Vec<OpCode>, body: &Vec<OpCode>) -> (r:
    Result<ControlFlow, RuntimeError>)
    requires
        old(state).wf(),
    ensures
        final(state).wf(),
        final(state)@.steps <= old(state)@.steps,
        final(state)@.frames.len() >= 1,
        match r {
            Ok(cf) => interp_while(old(state)@, ops_view(condition@), ops_view(body@)) == (
            Outcome::Done { state: final(state)@, flow: flow_view(cf) }) || interp_while(
                old(state)@,
                ops_view(condition@),
                ops_view(body@),
            ) is Hosted,
            Err(e) => interp_while(old(state)@, ops_view(condition@), ops_view(body@)) == (
            Outcome::Fail { error: e }) || interp_while(
                old(state)@,
                ops_view(condition@),
                ops_view(body@),
            ) is Hosted,
        },
    decreases state.steps, opsv_size(ops_view(condition@)) + opsv_size(ops_view(body@)), 4int,
{
    match spend_step(state) {
        Ok(()) => {},
        Err(e) => {
            return Err(e);
        },
    }
    let b = match evaluate_condition(state, condition) {
        Ok(b) => b,
        Err(e) => {
            return Err(e);
        },
    };
    if !b {
        return Ok(ControlFlow::Normal);
    }
    proof {
        assert(sv_cap(state@, sv_spend(old(state)@).steps) =~~= state@);
        assert(ops_view(body@).skip(0) =~= ops_view(body@));
    }
    let cf = match execute_ops(state, body, 0) {
        Ok(c) => c,
        Err(e) => {
            return Err(e);
        },
    };
    match cf {
        ControlFlow::Break => Ok(ControlFlow::Normal),
        ControlFlow::Return(k) => Ok(ControlFlow::Return(k)),
        _ => {
            proof {
                assert(sv_cap(state@, sv_spend(old(state)@).steps) =~~= state@);
            }
            execute_while_loop(state, condition, body)
        },
    }
}

/// Execute an infinite loop; see [`interp_loop`] for its semantics.
pub fn execute_infinite_loop(state: &mut State, body: &Vec<OpCode>) -> (r: Result<
    ControlFlow,
    RuntimeError,
>)
    requires
        old(state).wf(),
    ensures
        final(state).wf(),
        final(state)@.steps <= old(state)@.steps,
        final(state)@.frames.len() >= 1,
        match r {
            Ok(cf) => interp_loop(old(state)@, ops_view(body@)) == (Outcome::Done {
                state: final(state)@,
                flow: flow_view(cf),
            }) || interp_loop(old(state)@, ops_view(body@)) is Hosted,
            Err(e) => interp_loop(old(state)@, ops_view(body@)) == (Outcome::Fail { error: e })
                || interp_loop(old(state)@, ops_view(body@)) is Hosted,
        },
    decreases state.steps, opsv_size(ops_view(body@)), 4int,
{
    match spend_step(state) {
        Ok(()) => {},
        Err(e) => {
            return Err(e);
        },
    }
    proof {
        assert(ops_view(body@).skip(0) =~= ops_view(body@));
    }
    let cf = match execute_ops(state, body, 0) {
        Ok(c) => c,
        Err(e) => {
            return Err(e);
        },
    };
    match cf {
        ControlFlow::Break => Ok(ControlFlow::Normal),
        ControlFlow::Return(k) => Ok(ControlFlow::Return(k)),
        _ => {
            proof {
                assert(sv_cap(state@, sv_spend(old(state)@).steps) =~~= state@);
            }
            execute_infinite_loop(state, body)
        },
    }
}

/// Execute a for loop; see [`interp_for`] for its semantics.
pub fn execute_for_loop(
    state: &mut State,
    initialization: &Option<Vec<OpCode>>,
    condition: &Option<Vec<OpCode>>,
    increment: &Option<Vec<OpCode>>,
    body: &Vec<OpCode>,
) -> (r: Result<ControlFlow, RuntimeError>)
    requires
        old(state).wf(),
    ensures
        final(state).wf(),
        final(state)@.steps <= old(state)@.steps,
        final(state)@.frames.len() >= 1,
        match r {
            Ok(cf) => interp_for(
                old(state)@,
                opt_ops_view(initialization),
                opt_ops_view(condition),
                opt_ops_view(increment),
                ops_view(body@),
            ) == (Outcome::Done { state: final(state)@, flow: flow_view(cf) }) || interp_for(
                old(state)@,
                opt_ops_view(initialization),
                opt_ops_view(condition),
                opt_ops_view(increment),
                ops_view(body@),
            ) is Hosted,
            Err(e) => interp_for(
                old(state)@,
                opt_ops_view(initialization),
                opt_ops_view(condition),
                opt_ops_view(increment),
                ops_view(body@),
            ) == (Outcome::Fail { error: e }) || interp_for(
                old(state)@,
                opt_ops_view(initialization),
                opt_ops_view(condition),
                opt_ops_view(increment),
                ops_view(body@),
            ) is Hosted,
        },
    decreases state.steps,
        opt_size(opt_ops_view(initialization)) + opt_size(opt_ops_view(condition)) + opt_size(
            opt_ops_view(increment),
        ) + opsv_size(ops_view(body@)),
        5int,
{
    match initialization {
        Some(init) => {
            match execute_vec(state, init) {
                Ok(_) => {},
                Err(e) => {
                    return Err(e);
                },
            }
            proof {
                assert(sv_cap(state@, old(state)@.steps) =~~= state@);
            }
            execute_for_iterations(state, condition, increment, body)
        },
        None => execute_for_iterations(state, condition, increment, body),
    }
}

/// The iterating part of a for loop; see [`interp_for_loop`].
fn execute_for_iterations(
    state: &mut State,
    condition: &Option<Vec<OpCode>>,
    increment: &Option<Vec<OpCode>>,
    body: &Vec<OpCode>,
) -> (r: Result<ControlFlow, RuntimeError>)
    requires
        old(state).wf(),
    ensures
        final(state).wf(),
        final(state)@.steps <= old(state)@.steps,
        final(state)@.frames.len() >= 1,
        match r {
            Ok(cf) => interp_for_loop(
                old(state)@,
                opt_ops_view(condition),
                opt_ops_view(increment),
                ops_view(body@),
            ) == (Outcome::Done { state: final(state)@, flow: flow_view(cf) }) || interp_for_loop(
                old(state)@,
                opt_ops_view(condition),
                opt_ops_view(increment),
                ops_view(body@),
            ) is Hosted,
            Err(e) => interp_for_loop(
                old(state)@,
                opt_ops_view(condition),
                opt_ops_view(increment),
                ops_view(body@),
            ) == (Outcome::Fail { error: e }) || interp_for_loop(
                old(state)@,
                opt_ops_view(condition),
                opt_ops_view(increment),
                ops_view(body@),
            ) is Hosted,
        },
    decreases state.steps,
        opt_size(opt_ops_view(condition)) + opt_size(opt_ops_view(increment)) + opsv_size(
            ops_view(body@),
        ),
        4int,
{
    match spend_step(state) {
        Ok(()) => {},
        Err(e) => {
            return Err(e);
        },
    }
    let b = match condition {
        Some(c) => match evaluate_condition(state, c) {
            Ok(b) => b,
            Err(e) => {
                return Err(e);
            },
        },
        None => true,
    };
    if !b {
        return Ok(ControlFlow::Normal);
    }
    proof {
        assert(sv_cap(state@, sv_spend(old(state)@).steps) =~~= state@);
        assert(ops_view(body@).skip(0) =~= ops_view(body@));
    }
    let cf = match execute_ops(state, body, 0) {
        Ok(c) => c,
        Err(e) => {
            return Err(e);
        },
    };
    match cf {
        ControlFlow::Break => Ok(ControlFlow::Normal),
        ControlFlow::Return(k) => Ok(ControlFlow::Return(k)),
        _ => {
            match increment {
                Some(inc) => {
                    proof {
                        assert(sv_cap(state@, sv_spend(old(state)@).steps) =~~= state@);
                    }
                    match execute_vec(state, inc) {
                        Ok(_) => {},
                        Err(e) => {
                            return Err(e);
                        },
                    }
                },
                None => {},
            }
            proof {
                assert(sv_cap(state@, sv_spend(old(state)@).steps) =~~= state@);
            }
            execute_for_iterations(state, condition, increment, body)
        },
    }
}

/// Execute a single opcode on the given state. The returned signal may end
/// the enclosing execution layer early.
pub fn execute_operation(state: &mut State, op: &OpCode) -> (r: Result<ControlFlow, RuntimeError>)
    requires
        old(state).wf(),
    ensures
        final(state).wf(),
        final(state)@.steps <= old(state)@.steps,
        final(state)@.frames.len() >= 1,
        match r {
            Ok(cf) => interp_op(old(state)@, op_view(*op)) == (Outcome::Done {
                state: final(state)@,
                flow: flow_view(cf),
            }) || interp_op(old(state)@, op_view(*op)) is Hosted,
            Err(e) => interp_op(old(state)@, op_view(*op)) == (Outcome::Fail { error: e })
                || interp_op(old(state)@, op_view(*op)) is Hosted,
        },
    decreases state.steps, opv_size(op_view(*op)), 0int,
{
    match op {
        OpCode::Store(identifier) => {
            if state.operand_stack_size() == 0 {
                return Err(RuntimeError::StackUnderflow);
            }
            state.store_local(identifier.clone());
            proof {
                assert(interp_op(old(state)@, op_view(*op)) matches Outcome::Done {
                    state: s,
                    flow: f,
                } ==> s =~~= final(state)@);
            }
            Ok(ControlFlow::Normal)
        },
        OpCode::Load(identifier) => {
            state.load(identifier);
            proof {
                assert(interp_op(old(state)@, op_view(*op)) matches Outcome::Done {
                    state: s,
                    flow: f,
                } ==> s =~~= final(state)@);
            }
            Ok(ControlFlow::Normal)
        },
        OpCode::SetKey(_key) => {
            let _value = match state.pop() {
                Some(o) => o,
                None => {
                    return Err(RuntimeError::StackUnderflow);
                },
            };
            let table_obj = match state.pop() {
                Some(o) => o,
                None => {
                    return Err(RuntimeError::StackUnderflow);
                },
            };
            match &table_obj.value {
                Some(ObjectValue::Table(_)) => {
                    proof {
                        let ops0 = old(state)@.frames.last().ops;
                        assert(ops0.drop_last().drop_last() =~= ops0.take(ops0.len() - 2));
                        assert(interp_op(old(state)@, op_view(*op)) matches Outcome::Done {
                            state: s,
                            flow: f,
                        } ==> s =~~= final(state)@);
                    }
                    Ok(ControlFlow::Normal)
                },
                _ => Err(RuntimeError::NotATable),
            }
        },
        OpCode::GetKey(key) => {
            let table_obj = match state.pop() {
                Some(o) => o,
                None => {
                    return Err(RuntimeError::StackUnderflow);
                },
            };
            match &table_obj.value {
                Some(ObjectValue::Table(t)) => {
                    let value = match t.get(key) {
                        Some(o) => clone_object(o),
                        None => crate::runtime::types::utilities::nil(),
                    };
                    state.push(&value);
                    proof {
                        assert(interp_op(old(state)@, op_view(*op)) matches Outcome::Done {
                            state: s,
                            flow: f,
                        } ==> s =~~= final(state)@);
                    }
                    Ok(ControlFlow::Normal)
                },
                _ => Err(RuntimeError::NotATable),
            }
        },
        OpCode::PushInteger(x) => {
            let obj = crate::runtime::types::utilities::integer(*x);
            state.push(&obj);
            proof {
                assert(interp_op(old(state)@, op_view(*op)) matches Outcome::Done {
                    state: s,
                    flow: f,
                } ==> s =~~= final(state)@);
            }
            Ok(ControlFlow::Normal)
        },
        OpCode::PushFloat(x) => {
            let obj = crate::runtime::types::utilities::float(*x);
            state.push(&obj);
            proof {
                assert(interp_op(old(state)@, op_view(*op)) matches Outcome::Done {
                    state: s,
                    flow: f,
                } ==> s =~~= final(state)@);
            }
            Ok(ControlFlow::Normal)
        },
        OpCode::PushString(x) => {
            let obj = crate::runtime::types::utilities::string(x.clone());
            state.push(&obj);
            proof {
                assert(interp_op(old(state)@, op_view(*op)) matches Outcome::Done {
                    state: s,
                    flow: f,
                } ==> s =~~= final(state)@);
            }
            Ok(ControlFlow::Normal)
        },
        OpCode::PushBool(x) => {
            let obj = crate::runtime::types::utilities::boolean(*x);
            state.push(&obj);
            proof {
                assert(interp_op(old(state)@, op_view(*op)) matches Outcome::Done {
                    state: s,
                    flow: f,
                } ==> s =~~= final(state)@);
            }
            Ok(ControlFlow::Normal)
        },
        OpCode::PushNil => {
            let obj = crate::runtime::types::utilities::nil();
            state.push(&obj);
            proof {
                assert(interp_op(old(state)@, op_view(*op)) matches Outcome::Done {
                    state: s,
                    flow: f,
                } ==> s =~~= final(state)@);
            }
            Ok(ControlFlow::Normal)
        },
        OpCode::PushFunction(x) => {
            let copied = clone_ops(x);
            let obj = crate::runtime::types::utilities::scripted_function(
                Bytecode { inner: copied },
            );
            state.push(&obj);
            proof {
                assert(interp_op(old(state)@, op_view(*op)) matches Outcome::Done {
                    state: s,
                    flow: f,
                } ==> s =~~= final(state)@);
            }
            Ok(ControlFlow::Normal)
        },
        OpCode::BinaryOperation(kind) => {
            match execute_binary_operation(state, *kind) {
                Ok(()) => Ok(ControlFlow::Normal),
                Err(e) => Err(e),
            }
        },
        OpCode::UnaryOperation(kind) => {
            match execute_unary_operation(state, *kind) {
                Ok(()) => Ok(ControlFlow::Normal),
                Err(e) => Err(e),
            }
        },
        OpCode::Call(n) => {
            match execute_function_call(state, *n) {
                Ok(()) => Ok(ControlFlow::Normal),
                Err(e) => Err(e),
            }
        },
        OpCode::Return(n) => Ok(ControlFlow::Return(*n)),
        OpCode::Break => Ok(ControlFlow::Break),
        OpCode::Continue => Ok(ControlFlow::Continue),
        OpCode::If { condition, body, else_body } => execute_if_statement(
            state,
            condition,
            body,
            else_body,
        ),
        OpCode::For { initialization, condition, increment, body } => execute_for_loop(
            state,
            initialization,
            condition,
            increment,
            body,
        ),
        OpCode::While { condition, body } => execute_while_loop(state, condition, body),
        OpCode::Loop { body } => execute_infinite_loop(state, body),
    }
}

/// Parse, compile and run the input string on the given state: the
/// top-level entry point of the interpreter.
///
/// Fails with a syntax error exactly when the grammar rejects the input,
/// leaving the state unchanged. On a script of the grammar, running
/// consumes one step of the state's budget and then behaves exactly as the
/// spec-level interpreter runs the translation of the parsed tree: the
/// result is the number of values a top-level `return` left on the current
/// frame (zero without one), unless the run escapes to the host.
pub fn execute_source(state: &mut State, input: &str) -> (r: Result<usize, Error>)
    requires
        old(state).wf(),
    ensures
        final(state).wf(),
        final(state)@.steps <= old(state)@.steps,
        final(state)@.frames.len() >= 1,
        r matches Err(Error::Parse(_)) <==> !crate::compiler::parser::grammar_accepts(input@),
        r matches Err(Error::Parse(_)) ==> final(state)@ == old(state)@,
        crate::compiler::parser::parse_spec(input@) matches Some(tree) ==> {
            let prog = crate::compiler::translator::translate_spec(tree);
            if old(state)@.steps == 0 {
                r == Err::<usize, Error>(Error::Runtime(RuntimeError::StepsExhausted))
                    && final(state)@ == old(state)@
            } else {
                match interp_exec(sv_spend(old(state)@), prog) {
                    CountOutcome::Done { state: st, count: m } => (r matches Ok(k) && k as nat
                        == m) && final(state)@ == st,
                    CountOutcome::Fail { error } => r == Err::<usize, Error>(
                        Error::Runtime(error),
                    ),
                    CountOutcome::Hosted => true,
                }
            }
        },
    decreases state.steps, 0int, 0int,
{
    let bytecode = match crate::compiler::compile(input) {
        Ok(b) => b,
        Err(e) => {
            return Err(Error::Parse(e));
        },
    };
    match spend_step(state) {
        Ok(()) => {},
        Err(e) => {
            return Err(Error::Runtime(e));
        },
    }
    match execute(state, &bytecode) {
        Ok(m) => Ok(m),
        Err(e) => Err(Error::Runtime(e)),
    }
}

} // verus!
