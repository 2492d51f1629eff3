//! General laws of the interpreter, stated and proved against the
//! mathematical models that the contracts of the library use.

use vstd::prelude::*;

use crate::compiler::ast::{AstV, BinaryOperationKind};
use crate::compiler::translator::{translate_all, translate_spec};
use crate::runtime::bytecode::OpV;
use crate::runtime::bytecode::{opsv_size, opt_size, opv_size};
use crate::runtime::executor::{
    interp_call, interp_exec, interp_for_iter, interp_for_loop, interp_if, interp_loop,
    interp_op, interp_ops, interp_while, pop_condition, sv_cap, sv_spend, sv_top, CountOutcome,
    FlowV, Outcome,
};
use crate::runtime::types::function::{FuncV, WrappedFunction};
use crate::stdlib::{interp_native, top_values};
use crate::runtime::state::{lookup_spec, FrameV, StateV};
use crate::runtime::types::floats::float_of_int;
use crate::runtime::types::object::{tblv_get, Value};
use crate::runtime::types::operations::{arith_spec, is_arith_kind};
use crate::runtime::types::primitive::PrimV;
use crate::stdlib::stringify;

verus! {

/// Translator round-trip shape: the translation of an AST mirrors its
/// structure. Each control-flow node becomes exactly one tree-shaped opcode
/// whose sub-programs are the translations of the node's parts, and a block
/// becomes the concatenation of the translations of its statements.
pub proof fn lemma_translation_shape(
    condition: AstV,
    body: AstV,
    else_body: AstV,
    nodes: Seq<AstV>,
)
    ensures
        translate_spec(
            AstV::If {
                condition: Box::new(condition),
                body: Box::new(body),
                else_body: Some(Box::new(else_body)),
            },
        ) == seq![
            OpV::If {
                condition: translate_spec(condition),
                body: translate_spec(body),
                else_body: Some(translate_spec(else_body)),
            },
        ],
        translate_spec(
            AstV::While { condition: Box::new(condition), body: Box::new(body) },
        ) == seq![
            OpV::While { condition: translate_spec(condition), body: translate_spec(body) },
        ],
        translate_spec(AstV::Loop { body: Box::new(body) }) == seq![
            OpV::Loop { body: translate_spec(body) },
        ],
        translate_spec(AstV::Block(nodes)) == translate_all(nodes),
        nodes.len() > 0 ==> translate_all(nodes) == translate_spec(nodes[0]) + translate_all(
            nodes.drop_first(),
        ),
{
}

/// Lexical lookup, found: loading a name against a frame chain in which the
/// topmost binding of the name stands in frame `i` yields that frame's
/// current value for it.
pub proof fn lemma_lookup_nearest(frames: Seq<FrameV>, name: Seq<char>, i: int)
    requires
        0 <= i < frames.len(),
        tblv_get(frames[i].locals, name) is Some,
        forall|j: int| i < j < frames.len() ==> tblv_get(frames[j].locals, name) is None,
    ensures
        Some(lookup_spec(frames, name)) == tblv_get(frames[i].locals, name),
    decreases frames.len(),
{
    if i == frames.len() - 1 {
    } else {
        assert(frames.drop_last()[i] == frames[i]);
        lemma_lookup_nearest(frames.drop_last(), name, i);
    }
}

/// Lexical lookup, unbound: loading a name that no frame of the chain binds
/// yields nil.
pub proof fn lemma_lookup_unbound(frames: Seq<FrameV>, name: Seq<char>)
    requires
        forall|j: int| 0 <= j < frames.len() ==> tblv_get(frames[j].locals, name) is None,
    ensures
        lookup_spec(frames, name) == Value::Prim(PrimV::Nil),
    decreases frames.len(),
{
    if frames.len() > 0 {
        lemma_lookup_unbound(frames.drop_last(), name);
    }
}

/// Arithmetic promotion: an arithmetic operation of an integer and a float,
/// in either order, equals the float operation applied after promoting the
/// integer to the nearest float value.
pub proof fn lemma_arith_promotion(kind: BinaryOperationKind, a: i64, b: u64)
    requires
        is_arith_kind(kind),
    ensures
        arith_spec(kind, PrimV::Integer(a), PrimV::Float(b)) == arith_spec(
            kind,
            PrimV::Float(float_of_int(a)),
            PrimV::Float(b),
        ),
        arith_spec(kind, PrimV::Float(b), PrimV::Integer(a)) == arith_spec(
            kind,
            PrimV::Float(b),
            PrimV::Float(float_of_int(a)),
        ),
{
}

/// Stringification is idempotent: for every value on which the built-in
/// `string` is defined, stringifying the resulting string text again gives
/// the same text.
pub proof fn lemma_stringify_idempotent(v: Value)
    requires
        stringify(v) is Ok,
    ensures
        stringify(Value::Prim(PrimV::Str(stringify(v)->Ok_0))) == stringify(v),
{
}

/// A loop layer consumes loop signals: however a while loop ends normally,
/// it ends with the signal of the layer being `Normal` or a re-raised
/// `Return`, never `Break` or `Continue` - those are consumed by the loop
/// itself, whether they were raised directly in the body or re-raised out
/// of nested if layers.
pub proof fn lemma_while_consumes_loop_signals(st: StateV, condition: Seq<OpV>, body: Seq<OpV>)
    ensures
        interp_while(st, condition, body) matches Outcome::Done { state: _, flow } ==> (
        flow matches FlowV::Normal || flow matches FlowV::Return(_)),
    decreases st.steps,
{
    if st.steps > 0 {
        let st0 = crate::runtime::executor::sv_spend(st);
        match interp_exec(st0, condition) {
            crate::runtime::executor::CountOutcome::Done { state: st1, count: _ } => {
                match crate::runtime::executor::pop_condition(st1) {
                    Ok((st2, b)) => {
                        if b {
                            match interp_ops(crate::runtime::executor::sv_cap(st2, st0.steps), body) {
                                Outcome::Done { state: st3, flow: _ } => {
                                    lemma_while_consumes_loop_signals(
                                        crate::runtime::executor::sv_cap(st3, st0.steps),
                                        condition,
                                        body,
                                    );
                                },
                                _ => {},
                            }
                        }
                    },
                    Err(_) => {},
                }
            },
            _ => {},
        }
    }
}

/// A for-loop layer consumes loop signals, as the while layer does.
pub proof fn lemma_for_consumes_loop_signals(
    st: StateV,
    condition: Option<Seq<OpV>>,
    increment: Option<Seq<OpV>>,
    body: Seq<OpV>,
)
    ensures
        interp_for_loop(st, condition, increment, body) matches Outcome::Done {
            state: _,
            flow,
        } ==> (flow matches FlowV::Normal || flow matches FlowV::Return(_)),
    decreases st.steps, 0int,
{
    if st.steps > 0 {
        let st0 = crate::runtime::executor::sv_spend(st);
        match condition {
            Some(c) => {
                match interp_exec(st0, c) {
                    crate::runtime::executor::CountOutcome::Done { state: st1, count: _ } => {
                        match crate::runtime::executor::pop_condition(st1) {
                            Ok((st2, b)) => {
                                if b {
                                    lemma_for_iter_consumes_loop_signals(
                                        crate::runtime::executor::sv_cap(st2, st0.steps),
                                        condition,
                                        increment,
                                        body,
                                    );
                                }
                            },
                            Err(_) => {},
                        }
                    },
                    _ => {},
                }
            },
            None => {
                lemma_for_iter_consumes_loop_signals(st0, condition, increment, body);
            },
        }
    }
}

/// One iteration of a for loop whose condition held ends with `Normal` or a
/// re-raised `Return`.
pub proof fn lemma_for_iter_consumes_loop_signals(
    st: StateV,
    condition: Option<Seq<OpV>>,
    increment: Option<Seq<OpV>>,
    body: Seq<OpV>,
)
    ensures
        crate::runtime::executor::interp_for_iter(st, condition, increment, body)
            matches Outcome::Done { state: _, flow } ==> (flow matches FlowV::Normal
            || flow matches FlowV::Return(_)),
    decreases st.steps, 1int,
{
    match interp_ops(st, body) {
        Outcome::Done { state: st3, flow: f3 } => {
            if !(f3 matches FlowV::Break) && !(f3 matches FlowV::Return(_)) {
                match increment {
                    Some(inc) => {
                        match interp_exec(crate::runtime::executor::sv_cap(st3, st.steps), inc) {
                            crate::runtime::executor::CountOutcome::Done {
                                state: st4,
                                count: _,
                            } => {
                                lemma_for_consumes_loop_signals(
                                    crate::runtime::executor::sv_cap(st4, st.steps),
                                    condition,
                                    increment,
                                    body,
                                );
                            },
                            _ => {},
                        }
                    },
                    None => {
                        lemma_for_consumes_loop_signals(
                            crate::runtime::executor::sv_cap(st3, st.steps),
                            condition,
                            increment,
                            body,
                        );
                    },
                }
            }
        },
        _ => {},
    }
}

/// An infinite-loop layer consumes loop signals, as the while layer does.
pub proof fn lemma_loop_consumes_loop_signals(st: StateV, body: Seq<OpV>)
    ensures
        interp_loop(st, body) matches Outcome::Done { state: _, flow } ==> (
        flow matches FlowV::Normal || flow matches FlowV::Return(_)),
    decreases st.steps,
{
    if st.steps > 0 {
        let st0 = crate::runtime::executor::sv_spend(st);
        match interp_ops(st0, body) {
            Outcome::Done { state: st1, flow } => {
                if !(flow matches FlowV::Break) && !(flow matches FlowV::Return(_)) {
                    lemma_loop_consumes_loop_signals(
                        crate::runtime::executor::sv_cap(st1, st0.steps),
                        body,
                    );
                }
            },
            _ => {},
        }
    }
}

/// A function-call layer consumes the `Return` signal: however a call ends
/// normally, the signal it passes to the surrounding layer is `Normal`; a
/// `return` inside the callee, however deeply nested in if and loop layers,
/// ends at the call.
pub proof fn lemma_call_consumes_return(st: StateV, n: nat)
    ensures
        interp_call(st, n) matches Outcome::Done { state: _, flow } ==> flow
            matches FlowV::Normal,
{
}

/// An if layer consumes nothing: whenever the branch it ran ended with a
/// signal and a state, the whole if layer ends with exactly that signal and
/// that state.
pub proof fn lemma_if_reraises(
    st: StateV,
    condition: Seq<OpV>,
    body: Seq<OpV>,
    else_body: Option<Seq<OpV>>,
    st2: StateV,
    b: bool,
)
    requires
        interp_exec(st, condition) matches crate::runtime::executor::CountOutcome::Done {
            state: st1,
            count: _,
        } && crate::runtime::executor::pop_condition(st1) == Ok::<
            (StateV, bool),
            crate::runtime::error::RuntimeError,
        >((st2, b)),
    ensures
        b ==> interp_if(st, condition, body, else_body) == interp_ops(
            crate::runtime::executor::sv_cap(st2, st.steps),
            body,
        ),
        !b && else_body is Some ==> interp_if(st, condition, body, else_body) == interp_ops(
            crate::runtime::executor::sv_cap(st2, st.steps),
            else_body->Some_0,
        ),
        !b && else_body is None ==> interp_if(st, condition, body, else_body) == (Outcome::Done {
            state: st2,
            flow: FlowV::Normal,
        }),
{
}

/// What frame discipline means for one step of the interpreter: the frame
/// count is kept, every frame below the top is untouched, and the step
/// budget never grows.
pub open spec fn frames_disciplined(pre: StateV, post: StateV) -> bool {
    &&& post.frames.len() == pre.frames.len()
    &&& forall|i: int| 0 <= i < pre.frames.len() - 1 ==> post.frames[i] == pre.frames[i]
    &&& post.steps <= pre.steps
}

/// One built-in call keeps frame discipline: it acts on the top frame
/// alone.
pub proof fn lemma_native_frames(st: StateV, w: WrappedFunction, n: nat)
    requires
        st.frames.len() >= 1,
    ensures
        interp_native(st, w, n) matches CountOutcome::Done { state: st2, count: _ }
            ==> frames_disciplined(st, st2),
{
}

/// One opcode keeps frame discipline.
pub proof fn lemma_op_frames(st: StateV, op: OpV)
    requires
        st.frames.len() >= 1,
    ensures
        interp_op(st, op) matches Outcome::Done { state: st2, flow: _ } ==> frames_disciplined(
            st,
            st2,
        ),
    decreases st.steps, opv_size(op), 0int,
{
    match op {
        OpV::Call(n) => {
            lemma_call_frames(st, n);
        },
        OpV::If { condition, body, else_body } => {
            lemma_if_frames(st, condition, body, else_body);
        },
        OpV::For { initialization, condition, increment, body } => {
            match initialization {
                Some(init) => {
                    lemma_exec_frames(st, init);
                    match interp_exec(st, init) {
                        CountOutcome::Done { state: st1, count: _ } => {
                            lemma_for_loop_frames(sv_cap(st1, st.steps), condition, increment, body);
                        },
                        _ => {},
                    }
                },
                None => {
                    lemma_for_loop_frames(st, condition, increment, body);
                },
            }
        },
        OpV::While { condition, body } => {
            lemma_while_frames(st, condition, body);
        },
        OpV::Loop { body } => {
            lemma_loop_frames(st, body);
        },
        _ => {},
    }
}

/// A layer of opcodes keeps frame discipline.
pub proof fn lemma_ops_frames(st: StateV, ops: Seq<OpV>)
    requires
        st.frames.len() >= 1,
    ensures
        interp_ops(st, ops) matches Outcome::Done { state: st2, flow: _ } ==> frames_disciplined(
            st,
            st2,
        ),
    decreases st.steps, opsv_size(ops), 1int,
{
    if ops.len() > 0 {
        crate::runtime::bytecode::lemma_opv_size_pos(ops[0]);
        lemma_op_frames(st, ops[0]);
        match interp_op(st, ops[0]) {
            Outcome::Done { state: st2, flow: FlowV::Normal } => {
                lemma_ops_frames(sv_cap(st2, st.steps), ops.drop_first());
            },
            _ => {},
        }
    }
}

/// A whole program or function body keeps frame discipline.
pub proof fn lemma_exec_frames(st: StateV, ops: Seq<OpV>)
    requires
        st.frames.len() >= 1,
    ensures
        interp_exec(st, ops) matches CountOutcome::Done { state: st2, count: _ }
            ==> frames_disciplined(st, st2),
    decreases st.steps, opsv_size(ops), 2int,
{
    lemma_ops_frames(st, ops);
}

/// A function call keeps frame discipline: it pushes a frame, runs the
/// callee there, and pops the frame again.
pub proof fn lemma_call_frames(st: StateV, n: nat)
    requires
        st.frames.len() >= 1,
    ensures
        interp_call(st, n) matches Outcome::Done { state: st2, flow: _ } ==> frames_disciplined(
            st,
            st2,
        ) && st2.frames.last().locals == st.frames.last().locals,
    decreases st.steps, 0int, 0int,
{
    if st.steps > 0 {
        let st0 = sv_spend(st);
        let ops = sv_top(st0).ops;
        if ops.len() >= n + 1 {
            let args = top_values(ops.drop_last(), n);
            let st1 = crate::runtime::executor::sv_set_top_ops(
                st0,
                ops.take(ops.len() - (n + 1)),
            );
            let st2 = StateV {
                frames: st1.frames.push(FrameV { ops: args, locals: Seq::empty() }),
                output: st1.output,
                steps: st1.steps,
            };
            match ops.last() {
                Value::Func(FuncV::Scripted(body)) => {
                    lemma_exec_frames(st2, body);
                },
                Value::Func(FuncV::Wrapped(w)) => {
                    lemma_native_frames(st2, w, n);
                },
                _ => {},
            }
        }
    }
}

/// An if layer keeps frame discipline.
pub proof fn lemma_if_frames(
    st: StateV,
    condition: Seq<OpV>,
    body: Seq<OpV>,
    else_body: Option<Seq<OpV>>,
)
    requires
        st.frames.len() >= 1,
    ensures
        interp_if(st, condition, body, else_body) matches Outcome::Done { state: st2, flow: _ }
            ==> frames_disciplined(st, st2),
    decreases st.steps, opsv_size(condition) + opsv_size(body) + opt_size(else_body), 3int,
{
    lemma_exec_frames(st, condition);
    match interp_exec(st, condition) {
        CountOutcome::Done { state: st1, count: _ } => {
            match pop_condition(st1) {
                Ok((st2, b)) => {
                    if b {
                        lemma_ops_frames(sv_cap(st2, st.steps), body);
                    } else {
                        match else_body {
                            Some(els) => {
                                lemma_ops_frames(sv_cap(st2, st.steps), els);
                            },
                            None => {},
                        }
                    }
                },
                Err(_) => {},
            }
        },
        _ => {},
    }
}

/// A while layer keeps frame discipline.
pub proof fn lemma_while_frames(st: StateV, condition: Seq<OpV>, body: Seq<OpV>)
    requires
        st.frames.len() >= 1,
    ensures
        interp_while(st, condition, body) matches Outcome::Done { state: st2, flow: _ }
            ==> frames_disciplined(st, st2),
    decreases st.steps, opsv_size(condition) + opsv_size(body), 3int,
{
    if st.steps > 0 {
        let st0 = sv_spend(st);
        lemma_exec_frames(st0, condition);
        match interp_exec(st0, condition) {
            CountOutcome::Done { state: st1, count: _ } => {
                match pop_condition(st1) {
                    Ok((st2, b)) => {
                        if b {
                            lemma_ops_frames(sv_cap(st2, st0.steps), body);
                            match interp_ops(sv_cap(st2, st0.steps), body) {
                                Outcome::Done { state: st3, flow } => {
                                    if !(flow matches FlowV::Break) && !(flow
                                        matches FlowV::Return(_)) {
                                        lemma_while_frames(
                                            sv_cap(st3, st0.steps),
                                            condition,
                                            body,
                                        );
                                    }
                                },
                                _ => {},
                            }
                        }
                    },
                    Err(_) => {},
                }
            },
            _ => {},
        }
    }
}

/// The iterating part of a for loop keeps frame discipline.
pub proof fn lemma_for_loop_frames(
    st: StateV,
    condition: Option<Seq<OpV>>,
    increment: Option<Seq<OpV>>,
    body: Seq<OpV>,
)
    requires
        st.frames.len() >= 1,
    ensures
        interp_for_loop(st, condition, increment, body) matches Outcome::Done {
            state: st2,
            flow: _,
        } ==> frames_disciplined(st, st2),
    decreases st.steps, opt_size(condition) + opt_size(increment) + opsv_size(body), 3int,
{
    if st.steps > 0 {
        let st0 = sv_spend(st);
        match condition {
            Some(c) => {
                lemma_exec_frames(st0, c);
                match interp_exec(st0, c) {
                    CountOutcome::Done { state: st1, count: _ } => {
                        match pop_condition(st1) {
                            Ok((st2, b)) => {
                                if b {
                                    lemma_for_iter_frames(
                                        sv_cap(st2, st0.steps),
                                        condition,
                                        increment,
                                        body,
                                    );
                                }
                            },
                            Err(_) => {},
                        }
                    },
                    _ => {},
                }
            },
            None => {
                lemma_for_iter_frames(st0, condition, increment, body);
            },
        }
    }
}

/// One for-loop iteration keeps frame discipline.
pub proof fn lemma_for_iter_frames(
    st: StateV,
    condition: Option<Seq<OpV>>,
    increment: Option<Seq<OpV>>,
    body: Seq<OpV>,
)
    requires
        st.frames.len() >= 1,
    ensures
        interp_for_iter(st, condition, increment, body) matches Outcome::Done {
            state: st2,
            flow: _,
        } ==> frames_disciplined(st, st2),
    decreases st.steps, opt_size(condition) + opt_size(increment) + opsv_size(body), 4int,
{
    lemma_ops_frames(st, body);
    match interp_ops(st, body) {
        Outcome::Done { state: st3, flow } => {
            if !(flow matches FlowV::Break) && !(flow matches FlowV::Return(_)) {
                match increment {
                    Some(inc) => {
                        lemma_exec_frames(sv_cap(st3, st.steps), inc);
                        match interp_exec(sv_cap(st3, st.steps), inc) {
                            CountOutcome::Done { state: st4, count: _ } => {
                                lemma_for_loop_frames(
                                    sv_cap(st4, st.steps),
                                    condition,
                                    increment,
                                    body,
                                );
                            },
                            _ => {},
                        }
                    },
                    None => {
                        lemma_for_loop_frames(sv_cap(st3, st.steps), condition, increment, body);
                    },
                }
            }
        },
        _ => {},
    }
}

/// An infinite-loop layer keeps frame discipline.
pub proof fn lemma_loop_frames(st: StateV, body: Seq<OpV>)
    requires
        st.frames.len() >= 1,
    ensures
        interp_loop(st, body) matches Outcome::Done { state: st2, flow: _ }
            ==> frames_disciplined(st, st2),
    decreases st.steps, opsv_size(body), 3int,
{
    if st.steps > 0 {
        let st0 = sv_spend(st);
        lemma_ops_frames(st0, body);
        match interp_ops(st0, body) {
            Outcome::Done { state: st1, flow } => {
                if !(flow matches FlowV::Break) && !(flow matches FlowV::Return(_)) {
                    lemma_loop_frames(sv_cap(st1, st0.steps), body);
                }
            },
            _ => {},
        }
    }
}

/// Call round-trip: a call of a scripted function with `n` arguments whose
/// body runs to an end and reports `m` values leaves the caller with its
/// frame count and its local scope unchanged, the callee and the arguments
/// gone from its operand stack, and exactly the `m` reported values added
/// in their place, in the order the callee's frame held them (top first).
pub proof fn lemma_call_round_trip(st: StateV, n: nat, body: Seq<OpV>, st3: StateV, m: nat)
    requires
        st.frames.len() >= 1,
        st.steps > 0,
        sv_top(sv_spend(st)).ops.len() >= n + 1,
        sv_top(sv_spend(st)).ops.last() == Value::Func(FuncV::Scripted(body)),
        interp_exec(
            StateV {
                frames: crate::runtime::executor::sv_set_top_ops(
                    sv_spend(st),
                    sv_top(sv_spend(st)).ops.take(sv_top(sv_spend(st)).ops.len() - (n + 1)),
                ).frames.push(
                    FrameV {
                        ops: top_values(sv_top(sv_spend(st)).ops.drop_last(), n),
                        locals: Seq::empty(),
                    },
                ),
                output: st.output,
                steps: sv_spend(st).steps,
            },
            body,
        ) == (CountOutcome::Done { state: st3, count: m }),
        sv_top(st3).ops.len() >= m,
    ensures
        interp_call(st, n) matches Outcome::Done { state: st4, flow } ==> {
            &&& flow matches FlowV::Normal
            &&& st4.frames.len() == st.frames.len()
            &&& forall|i: int| 0 <= i < st.frames.len() - 1 ==> st4.frames[i] == st.frames[i]
            &&& st4.frames.last().locals == st.frames.last().locals
            &&& st4.frames.last().ops == sv_top(sv_spend(st)).ops.take(
                sv_top(sv_spend(st)).ops.len() - (n + 1),
            ) + top_values(sv_top(st3).ops, m)
        },
{
    let st0 = sv_spend(st);
    let ops = sv_top(st0).ops;
    let st1 = crate::runtime::executor::sv_set_top_ops(st0, ops.take(ops.len() - (n + 1)));
    let st2 = StateV {
        frames: st1.frames.push(
            FrameV { ops: top_values(ops.drop_last(), n), locals: Seq::empty() },
        ),
        output: st1.output,
        steps: st1.steps,
    };
    lemma_exec_frames(st2, body);
    assert(st3.frames.len() == st2.frames.len());
    assert(st3.frames.len() >= 2);
    assert(forall|i: int| 0 <= i < st2.frames.len() - 1 ==> st3.frames[i] == st2.frames[i]);
    assert(st3.frames.drop_last().last() == st1.frames.last());
}

/// Running a concatenation of two opcode sequences runs the first, and, if
/// it ended normally, the second from where the first left off; any early
/// signal, error or host escape of the first is the outcome of the whole.
pub proof fn lemma_ops_split(st: StateV, a: Seq<OpV>, b: Seq<OpV>)
    requires
        st.frames.len() >= 1,
    ensures
        match interp_ops(st, a) {
            Outcome::Done { state: st1, flow: FlowV::Normal } => st1.steps <= st.steps
                && interp_ops(st, a + b) == interp_ops(st1, b),
            Outcome::Done { state: st1, flow } => interp_ops(st, a + b) == (Outcome::Done {
                state: st1,
                flow,
            }),
            Outcome::Fail { error } => interp_ops(st, a + b) == (Outcome::Fail { error }),
            Outcome::Hosted => interp_ops(st, a + b) == Outcome::Hosted,
        },
    decreases st.steps, opsv_size(a), 0int,
{
    if a.len() == 0 {
        assert(a + b =~= b);
        assert(sv_cap(st, st.steps) =~~= st);
    } else {
        crate::runtime::bytecode::lemma_opv_size_pos(a[0]);
        assert((a + b)[0] == a[0]);
        assert((a + b).len() > 0);
        assert((a + b).drop_first() =~= a.drop_first() + b);
        lemma_op_frames(st, a[0]);
        match interp_op(st, a[0]) {
            Outcome::Done { state: st2, flow: FlowV::Normal } => {
                assert(sv_cap(st2, st.steps) =~~= st2);
                lemma_ops_split(st2, a.drop_first(), b);
                lemma_ops_frames(st2, a.drop_first());
            },
            _ => {},
        }
    }
}

/// The number of nodes of an AST, counting nested ones; a termination
/// measure for walks over the tree.
pub open spec fn ast_size(ast: AstV) -> nat
    decreases ast,
{
    match ast {
        AstV::FunctionCall { identifier: _, args } => 1 + asts_size(args),
        AstV::FunctionDef { args: _, body } => 1 + ast_size(*body),
        AstV::UnaryOperation { kind: _, operand } => 1 + ast_size(*operand),
        AstV::BinaryOperation { kind: _, left, right } => 1 + ast_size(*left) + ast_size(
            *right,
        ),
        AstV::Assignment { identifier: _, value } => 1 + ast_size(*value),
        AstV::Return { value } => match value {
            Some(v) => 1 + ast_size(*v),
            None => 1,
        },
        AstV::If { condition, body, else_body } => 1 + ast_size(*condition) + ast_size(*body)
            + (match else_body {
            Some(e) => ast_size(*e),
            None => 0,
        }),
        AstV::For { initialization, condition, increment, body } => {
            1 + (match initialization {
                Some(x) => ast_size(*x),
                None => 0,
            }) + (match condition {
                Some(x) => ast_size(*x),
                None => 0,
            }) + (match increment {
                Some(x) => ast_size(*x),
                None => 0,
            }) + ast_size(*body)
        },
        AstV::While { condition, body } => 1 + ast_size(*condition) + ast_size(*body),
        AstV::Loop { body } => 1 + ast_size(*body),
        AstV::Block(nodes) => 1 + asts_size(nodes),
        _ => 1,
    }
}

/// The total number of nodes of a sequence of ASTs.
pub open spec fn asts_size(nodes: Seq<AstV>) -> nat
    decreases nodes,
{
    if nodes.len() == 0 {
        0
    } else {
        ast_size(nodes[0]) + asts_size(nodes.drop_first())
    }
}

/// Whether the AST is an expression that performs no function call; its
/// translation then runs without consuming steps and cannot escape to the
/// host. A function definition counts: it only pushes a value, without
/// running its body.
pub open spec fn pure_expr(ast: AstV) -> bool
    decreases ast,
{
    match ast {
        AstV::Identifier(_) => true,
        AstV::NumberLiteral(_) => true,
        AstV::StringLiteral(_) => true,
        AstV::BooleanLiteral(_) => true,
        AstV::NilLiteral => true,
        AstV::FunctionDef { args: _, body: _ } => true,
        AstV::UnaryOperation { kind: _, operand } => pure_expr(*operand),
        AstV::BinaryOperation { kind: _, left, right } => pure_expr(*left) && pure_expr(
            *right,
        ),
        _ => false,
    }
}

/// Whether the AST is a statement that is neither an expression statement
/// nor a return, all the expressions it evaluates are call-free, and all
/// the statements nested in it satisfy the same.
pub open spec fn neutral_stmt(ast: AstV) -> bool
    decreases ast, 0int,
{
    match ast {
        AstV::Assignment { identifier: _, value } => pure_expr(*value),
        AstV::Break => true,
        AstV::Continue => true,
        AstV::If { condition, body, else_body } => pure_expr(*condition) && neutral_stmt(
            *body,
        ) && (match else_body {
            Some(e) => neutral_stmt(*e),
            None => true,
        }),
        AstV::For { initialization, condition, increment, body } => {
            &&& match initialization {
                Some(x) => neutral_stmt(*x),
                None => true,
            }
            &&& match condition {
                Some(x) => pure_expr(*x),
                None => true,
            }
            &&& match increment {
                Some(x) => neutral_stmt(*x),
                None => true,
            }
            &&& neutral_stmt(*body)
        },
        AstV::While { condition, body } => pure_expr(*condition) && neutral_stmt(*body),
        AstV::Loop { body } => neutral_stmt(*body),
        AstV::Block(nodes) => all_neutral(nodes),
        _ => false,
    }
}

/// Whether every node of the sequence is a neutral statement.
pub open spec fn all_neutral(nodes: Seq<AstV>) -> bool
    decreases nodes, 1int,
{
    if nodes.len() == 0 {
        true
    } else {
        neutral_stmt(nodes[0]) && all_neutral(nodes.drop_first())
    }
}

/// What it means for a run to be stack-neutral: frames kept, lower frames
/// untouched, and the current frame's operand stack exactly as it was.
pub open spec fn stack_neutral_run(pre: StateV, post: StateV) -> bool {
    &&& frames_disciplined(pre, post)
    &&& post.frames.last().ops == pre.frames.last().ops
}

/// What it means for a run to push exactly one value: frames kept, lower
/// frames untouched, the current frame's locals untouched, and its operand
/// stack exactly as it was with one more value on top.
pub open spec fn pushes_one_value(pre: StateV, post: StateV) -> bool {
    &&& frames_disciplined(pre, post)
    &&& post.frames.last().locals == pre.frames.last().locals
    &&& exists|v: Value| post.frames.last().ops == pre.frames.last().ops.push(v)
}

/// Expression-stack law: however the translation of a call-free expression
/// runs to completion, it raises no signal and leaves exactly one
/// additional value on the operand stack, touching nothing else.
pub proof fn lemma_expr_pushes_one(st: StateV, ast: AstV)
    requires
        st.frames.len() >= 1,
        pure_expr(ast),
    ensures
        interp_ops(st, translate_spec(ast)) matches Outcome::Done { state: st2, flow } ==> (
        flow matches FlowV::Normal && pushes_one_value(st, st2)),
    decreases ast_size(ast),
{
    reveal_with_fuel(interp_ops, 2);
    match ast {
        AstV::UnaryOperation { kind, operand } => {
            let to = translate_spec(*operand);
            let tail = seq![OpV::UnaryOperation(kind)];
            assert(translate_spec(ast) =~= to + tail);
            lemma_ops_split(st, to, tail);
            lemma_expr_pushes_one(st, *operand);
            match interp_ops(st, to) {
                Outcome::Done { state: st1, flow: FlowV::Normal } => {
                    assert(tail.drop_first() =~= Seq::<OpV>::empty());
                    match interp_op(st1, tail[0]) {
                        Outcome::Done { state: st2, flow: FlowV::Normal } => {
                            assert(sv_cap(st2, st1.steps) =~~= st2);
                            let v0 = choose|v: Value|
                                st1.frames.last().ops == st.frames.last().ops.push(v);
                            assert(st1.frames.last().ops.drop_last() =~= st.frames.last().ops);
                            assert(st2.frames.last().ops == st.frames.last().ops.push(
                                st2.frames.last().ops.last(),
                            )) by {
                                assert(st2.frames.last().ops =~= st.frames.last().ops.push(
                                    st2.frames.last().ops.last(),
                                ));
                            }
                        },
                        _ => {},
                    }
                },
                _ => {},
            }
        },
        AstV::BinaryOperation { kind, left, right } => {
            let tl = translate_spec(*left);
            let tr = translate_spec(*right);
            let tail = seq![OpV::BinaryOperation(kind)];
            assert(translate_spec(ast) =~= tl + (tr + tail));
            lemma_ops_split(st, tl, tr + tail);
            lemma_expr_pushes_one(st, *left);
            match interp_ops(st, tl) {
                Outcome::Done { state: st1, flow: FlowV::Normal } => {
                    lemma_ops_split(st1, tr, tail);
                    lemma_expr_pushes_one(st1, *right);
                    match interp_ops(st1, tr) {
                        Outcome::Done { state: stm, flow: FlowV::Normal } => {
                            assert(tail.drop_first() =~= Seq::<OpV>::empty());
                            match interp_op(stm, tail[0]) {
                                Outcome::Done { state: st2, flow: FlowV::Normal } => {
                                    assert(sv_cap(st2, stm.steps) =~~= st2);
                                    assert(stm.frames.last().ops.len() >= 2);
                                    assert(stm.frames.last().ops.drop_last().drop_last()
                                        =~= st.frames.last().ops);
                                    assert(stm.frames.last().ops.take(
                                        stm.frames.last().ops.len() - 2,
                                    ) =~= st.frames.last().ops);
                                    assert(st2.frames.last().ops =~= st.frames.last().ops.push(
                                        st2.frames.last().ops.last(),
                                    ));
                                },
                                _ => {},
                            }
                        },
                        _ => {},
                    }
                },
                _ => {},
            }
        },
        _ => {
            // A single push or load opcode.
            let ops = translate_spec(ast);
            assert(ops.len() == 1);
            assert(ops.drop_first() =~= Seq::<OpV>::empty());
            match interp_op(st, ops[0]) {
                Outcome::Done { state: st2, flow: FlowV::Normal } => {
                    assert(sv_cap(st2, st.steps) =~~= st2);
                },
                _ => {},
            }
        },
    }
}

/// Every AST counts at least one node.
pub proof fn lemma_ast_size_pos(ast: AstV)
    ensures
        ast_size(ast) >= 1,
{
}

/// Stack neutrality: however the translation of a neutral statement (one
/// that is neither an expression statement nor a return, down to every
/// nested statement, with call-free expressions) runs to completion, the
/// net change to the current frame's operand stack is zero, and no other
/// frame is touched.
pub proof fn lemma_stmt_neutral(st: StateV, ast: AstV)
    requires
        st.frames.len() >= 1,
        neutral_stmt(ast),
    ensures
        interp_ops(st, translate_spec(ast)) matches Outcome::Done { state: st2, flow }
            ==> stack_neutral_run(st, st2),
    decreases st.steps, ast_size(ast), 1int,
{
    reveal_with_fuel(interp_ops, 2);
    match ast {
        AstV::Assignment { identifier, value } => {
            let tv = translate_spec(*value);
            let tail = seq![OpV::Store(identifier)];
            assert(translate_spec(ast) =~= tv + tail);
            lemma_ops_split(st, tv, tail);
            lemma_expr_pushes_one(st, *value);
            match interp_ops(st, tv) {
                Outcome::Done { state: st1, flow: FlowV::Normal } => {
                    assert(tail.drop_first() =~= Seq::<OpV>::empty());
                    match interp_op(st1, tail[0]) {
                        Outcome::Done { state: st2, flow: FlowV::Normal } => {
                            assert(sv_cap(st2, st1.steps) =~~= st2);
                            assert(st1.frames.last().ops.drop_last() =~= st.frames.last().ops);
                        },
                        _ => {},
                    }
                },
                _ => {},
            }
        },
        AstV::Break => {},
        AstV::Continue => {},
        AstV::If { condition, body, else_body } => {
            let ops = translate_spec(ast);
            assert(ops.len() == 1);
            lemma_if_neutral(st, *condition, *body, else_body);
            match interp_op(st, ops[0]) {
                Outcome::Done { state: st2, flow: FlowV::Normal } => {
                    assert(sv_cap(st2, st.steps) =~~= st2) by {
                        lemma_op_frames(st, ops[0]);
                    }
                },
                _ => {},
            }
        },
        AstV::While { condition, body } => {
            let ops = translate_spec(ast);
            assert(ops.len() == 1);
            lemma_while_neutral(st, *condition, *body);
            match interp_op(st, ops[0]) {
                Outcome::Done { state: st2, flow: FlowV::Normal } => {
                    assert(sv_cap(st2, st.steps) =~~= st2) by {
                        lemma_op_frames(st, ops[0]);
                    }
                },
                _ => {},
            }
        },
        AstV::Loop { body } => {
            let ops = translate_spec(ast);
            assert(ops.len() == 1);
            lemma_loop_neutral(st, *body);
            match interp_op(st, ops[0]) {
                Outcome::Done { state: st2, flow: FlowV::Normal } => {
                    assert(sv_cap(st2, st.steps) =~~= st2) by {
                        lemma_op_frames(st, ops[0]);
                    }
                },
                _ => {},
            }
        },
        AstV::For { initialization, condition, increment, body } => {
            let ops = translate_spec(ast);
            assert(ops.len() == 1);
            lemma_for_stmt_neutral(st, initialization, condition, increment, *body);
            match interp_op(st, ops[0]) {
                Outcome::Done { state: st2, flow: FlowV::Normal } => {
                    assert(sv_cap(st2, st.steps) =~~= st2) by {
                        lemma_op_frames(st, ops[0]);
                    }
                },
                _ => {},
            }
        },
        AstV::Block(nodes) => {
            assert(translate_spec(ast) == translate_all(nodes));
            lemma_block_neutral(st, nodes);
        },
        _ => {},
    }
}

/// A sequence of neutral statements runs stack-neutrally.
pub proof fn lemma_block_neutral(st: StateV, nodes: Seq<AstV>)
    requires
        st.frames.len() >= 1,
        all_neutral(nodes),
    ensures
        interp_ops(st, translate_all(nodes)) matches Outcome::Done { state: st2, flow }
            ==> stack_neutral_run(st, st2),
    decreases st.steps, asts_size(nodes), 2int,
{
    reveal_with_fuel(interp_ops, 2);
    if nodes.len() > 0 {
        lemma_ast_size_pos(nodes[0]);
        let head = translate_spec(nodes[0]);
        let rest = translate_all(nodes.drop_first());
        assert(translate_all(nodes) == head + rest);
        lemma_ops_split(st, head, rest);
        lemma_stmt_neutral(st, nodes[0]);
        match interp_ops(st, head) {
            Outcome::Done { state: st1, flow: FlowV::Normal } => {
                lemma_block_neutral(st1, nodes.drop_first());
            },
            _ => {},
        }
    }
}

/// The condition of a control-flow statement runs and pops to a boolean
/// without any net stack change.
proof fn lemma_condition_neutral(st: StateV, condition: AstV)
    requires
        st.frames.len() >= 1,
        pure_expr(condition),
    ensures
        interp_exec(st, translate_spec(condition)) matches CountOutcome::Done {
            state: st1,
            count: _,
        } ==> (pop_condition(st1) matches Ok((st2, b)) ==> stack_neutral_run(st, st2)
            && st2.frames.last().locals == st.frames.last().locals),
{
    lemma_expr_pushes_one(st, condition);
    match interp_exec(st, translate_spec(condition)) {
        CountOutcome::Done { state: st1, count: _ } => {
            match pop_condition(st1) {
                Ok((st2, b)) => {
                    assert(st1.frames.last().ops.drop_last() =~= st.frames.last().ops);
                },
                Err(_) => {},
            }
        },
        _ => {},
    }
}

/// An if statement over call-free condition and neutral branches runs
/// stack-neutrally.
pub proof fn lemma_if_neutral(
    st: StateV,
    condition: AstV,
    body: AstV,
    else_body: Option<Box<AstV>>,
)
    requires
        st.frames.len() >= 1,
        pure_expr(condition),
        neutral_stmt(body),
        match else_body {
            Some(e) => neutral_stmt(*e),
            None => true,
        },
    ensures
        interp_if(
            st,
            translate_spec(condition),
            translate_spec(body),
            match else_body {
                Some(e) => Some(translate_spec(*e)),
                None => None,
            },
        ) matches Outcome::Done { state: st2, flow } ==> stack_neutral_run(st, st2),
    decreases st.steps, ast_size(condition) + ast_size(body) + (match else_body {
        Some(e) => ast_size(*e),
        None => 0nat,
    }), 3int,
{
    lemma_condition_neutral(st, condition);
    match interp_exec(st, translate_spec(condition)) {
        CountOutcome::Done { state: st1, count: _ } => {
            match pop_condition(st1) {
                Ok((st2, b)) => {
                    assert(sv_cap(st2, st.steps) =~~= st2);
                    if b {
                        lemma_stmt_neutral(st2, body);
                    } else {
                        match else_body {
                            Some(els) => {
                                lemma_stmt_neutral(st2, *els);
                            },
                            None => {},
                        }
                    }
                },
                Err(_) => {},
            }
        },
        _ => {},
    }
}

/// A while loop over a call-free condition and a neutral body runs
/// stack-neutrally.
pub proof fn lemma_while_neutral(st: StateV, condition: AstV, body: AstV)
    requires
        st.frames.len() >= 1,
        pure_expr(condition),
        neutral_stmt(body),
    ensures
        interp_while(st, translate_spec(condition), translate_spec(body)) matches Outcome::Done {
            state: st2,
            flow,
        } ==> stack_neutral_run(st, st2),
    decreases st.steps, ast_size(condition) + ast_size(body), 3int,
{
    if st.steps > 0 {
        let st0 = sv_spend(st);
        lemma_condition_neutral(st0, condition);
        match interp_exec(st0, translate_spec(condition)) {
            CountOutcome::Done { state: st1, count: _ } => {
                match pop_condition(st1) {
                    Ok((st2, b)) => {
                        if b {
                            assert(sv_cap(st2, st0.steps) =~~= st2);
                            lemma_stmt_neutral(st2, body);
                            match interp_ops(st2, translate_spec(body)) {
                                Outcome::Done { state: st3, flow } => {
                                    if !(flow matches FlowV::Break) && !(flow
                                        matches FlowV::Return(_)) {
                                        assert(sv_cap(st3, st0.steps) =~~= st3);
                                        lemma_while_neutral(st3, condition, body);
                                    }
                                },
                                _ => {},
                            }
                        }
                    },
                    Err(_) => {},
                }
            },
            _ => {},
        }
    }
}

/// An infinite loop over a neutral body runs stack-neutrally.
pub proof fn lemma_loop_neutral(st: StateV, body: AstV)
    requires
        st.frames.len() >= 1,
        neutral_stmt(body),
    ensures
        interp_loop(st, translate_spec(body)) matches Outcome::Done { state: st2, flow }
            ==> stack_neutral_run(st, st2),
    decreases st.steps, ast_size(body), 3int,
{
    if st.steps > 0 {
        let st0 = sv_spend(st);
        lemma_stmt_neutral(st0, body);
        match interp_ops(st0, translate_spec(body)) {
            Outcome::Done { state: st1, flow } => {
                if !(flow matches FlowV::Break) && !(flow matches FlowV::Return(_)) {
                    assert(sv_cap(st1, st0.steps) =~~= st1);
                    lemma_loop_neutral(st1, body);
                }
            },
            _ => {},
        }
    }
}

/// The combined node count of the optional parts of a for statement.
pub open spec fn for_parts_size(
    initialization: Option<Box<AstV>>,
    condition: Option<Box<AstV>>,
    increment: Option<Box<AstV>>,
    body: AstV,
) -> nat {
    (match initialization {
        Some(x) => ast_size(*x),
        None => 0nat,
    }) + (match condition {
        Some(x) => ast_size(*x),
        None => 0nat,
    }) + (match increment {
        Some(x) => ast_size(*x),
        None => 0nat,
    }) + ast_size(body)
}

/// A whole for statement over neutral parts runs stack-neutrally.
pub proof fn lemma_for_stmt_neutral(
    st: StateV,
    initialization: Option<Box<AstV>>,
    condition: Option<Box<AstV>>,
    increment: Option<Box<AstV>>,
    body: AstV,
)
    requires
        st.frames.len() >= 1,
        match initialization {
            Some(x) => neutral_stmt(*x),
            None => true,
        },
        match condition {
            Some(x) => pure_expr(*x),
            None => true,
        },
        match increment {
            Some(x) => neutral_stmt(*x),
            None => true,
        },
        neutral_stmt(body),
    ensures
        crate::runtime::executor::interp_for(
            st,
            match initialization {
                Some(x) => Some(translate_spec(*x)),
                None => None,
            },
            match condition {
                Some(x) => Some(translate_spec(*x)),
                None => None,
            },
            match increment {
                Some(x) => Some(translate_spec(*x)),
                None => None,
            },
            translate_spec(body),
        ) matches Outcome::Done { state: st2, flow } ==> stack_neutral_run(st, st2),
    decreases st.steps, for_parts_size(initialization, condition, increment, body), 5int,
{
    match initialization {
        Some(init) => {
            lemma_stmt_neutral(st, *init);
            match interp_exec(st, translate_spec(*init)) {
                CountOutcome::Done { state: st1, count: _ } => {
                    assert(sv_cap(st1, st.steps) =~~= st1);
                    lemma_for_neutral(st1, condition, increment, body);
                },
                _ => {},
            }
        },
        None => {
            lemma_for_neutral(st, condition, increment, body);
        },
    }
}

/// The iterating part of a for loop over neutral parts runs
/// stack-neutrally.
pub proof fn lemma_for_neutral(
    st: StateV,
    condition: Option<Box<AstV>>,
    increment: Option<Box<AstV>>,
    body: AstV,
)
    requires
        st.frames.len() >= 1,
        match condition {
            Some(x) => pure_expr(*x),
            None => true,
        },
        match increment {
            Some(x) => neutral_stmt(*x),
            None => true,
        },
        neutral_stmt(body),
    ensures
        interp_for_loop(
            st,
            match condition {
                Some(x) => Some(translate_spec(*x)),
                None => None,
            },
            match increment {
                Some(x) => Some(translate_spec(*x)),
                None => None,
            },
            translate_spec(body),
        ) matches Outcome::Done { state: st2, flow } ==> stack_neutral_run(st, st2),
    decreases st.steps, for_parts_size(None, condition, increment, body), 3int,
{
    if st.steps > 0 {
        let st0 = sv_spend(st);
        match condition {
            Some(c) => {
                lemma_condition_neutral(st0, *c);
                match interp_exec(st0, translate_spec(*c)) {
                    CountOutcome::Done { state: st1, count: _ } => {
                        match pop_condition(st1) {
                            Ok((st2, b)) => {
                                if b {
                                    assert(sv_cap(st2, st0.steps) =~~= st2);
                                    lemma_for_iter_neutral(st2, condition, increment, body);
                                }
                            },
                            Err(_) => {},
                        }
                    },
                    _ => {},
                }
            },
            None => {
                lemma_for_iter_neutral(st0, condition, increment, body);
            },
        }
    }
}

/// One iteration of a for loop over neutral parts runs stack-neutrally.
pub proof fn lemma_for_iter_neutral(
    st: StateV,
    condition: Option<Box<AstV>>,
    increment: Option<Box<AstV>>,
    body: AstV,
)
    requires
        st.frames.len() >= 1,
        match condition {
            Some(x) => pure_expr(*x),
            None => true,
        },
        match increment {
            Some(x) => neutral_stmt(*x),
            None => true,
        },
        neutral_stmt(body),
    ensures
        interp_for_iter(
            st,
            match condition {
                Some(x) => Some(translate_spec(*x)),
                None => None,
            },
            match increment {
                Some(x) => Some(translate_spec(*x)),
                None => None,
            },
            translate_spec(body),
        ) matches Outcome::Done { state: st2, flow } ==> stack_neutral_run(st, st2),
    decreases st.steps, for_parts_size(None, condition, increment, body), 4int,
{
    lemma_stmt_neutral(st, body);
    match interp_ops(st, translate_spec(body)) {
        Outcome::Done { state: st3, flow } => {
            if !(flow matches FlowV::Break) && !(flow matches FlowV::Return(_)) {
                assert(sv_cap(st3, st.steps) =~~= st3);
                match increment {
                    Some(inc) => {
                        lemma_stmt_neutral(st3, *inc);
                        match interp_exec(st3, translate_spec(*inc)) {
                            CountOutcome::Done { state: st4, count: _ } => {
                                assert(sv_cap(st4, st.steps) =~~= st4);
                                lemma_for_neutral(st4, condition, increment, body);
                            },
                            _ => {},
                        }
                    },
                    None => {
                        lemma_for_neutral(st3, condition, increment, body);
                    },
                }
            }
        },
        _ => {},
    }
}

/// Whether every value of the sequence is an integer primitive.
pub open spec fn all_integers(vs: Seq<Value>) -> bool {
    forall|i: int| 0 <= i < vs.len() ==> #[trigger] vs[i] matches Value::Prim(PrimV::Integer(_))
}

/// The fold of `>` over integer arguments yields a maximum of them: the
/// result is the starting value or one of the arguments, and none of them
/// is strictly greater. The corresponding law for float arguments would
/// need order facts (transitivity, and monotonicity of the promotion)
/// about the named results of the outside float comparisons, which the
/// trusted items do not state.
pub proof fn lemma_integer_max(acc: Value, rest: Seq<Value>)
    requires
        acc matches Value::Prim(PrimV::Integer(_)),
        all_integers(rest),
    ensures
        crate::stdlib::extreme_spec(true, acc, rest) matches Ok(m) && (m == acc || rest.contains(
            m,
        )) && m matches Value::Prim(PrimV::Integer(_)),
        (crate::stdlib::extreme_spec(true, acc, rest)->Ok_0)->Prim_0->Integer_0
            >= acc->Prim_0->Integer_0,
        forall|i: int|
            0 <= i < rest.len() ==> #[trigger] rest[i]->Prim_0->Integer_0 <= (crate::stdlib::extreme_spec(
                true,
                acc,
                rest,
            )->Ok_0)->Prim_0->Integer_0,
    decreases rest,
{
    if rest.len() > 0 {
        assert(rest[0] matches Value::Prim(PrimV::Integer(_)));
        assert(forall|i: int| 0 <= i < rest.drop_first().len() ==> rest.drop_first()[i]
            == rest[i + 1]);
        let first = rest[0];
        let a0 = acc->Prim_0->Integer_0;
        let f0 = first->Prim_0->Integer_0;
        if f0 > a0 {
            lemma_integer_max(first, rest.drop_first());
            assert forall|i: int| 0 <= i < rest.len() implies #[trigger] rest[i]->Prim_0->Integer_0
                <= (crate::stdlib::extreme_spec(true, acc, rest)->Ok_0)->Prim_0->Integer_0 by {
                if i > 0 {
                    assert(rest.drop_first()[i - 1] == rest[i]);
                }
            }
            assert(crate::stdlib::extreme_spec(true, first, rest.drop_first())
                matches Ok(m) ==> (m == first || rest.drop_first().contains(m)) ==> (m == rest[0]
                || rest.contains(m)));
            assert(crate::stdlib::extreme_spec(true, acc, rest) matches Ok(m) ==> (m == acc
                || rest.contains(m))) by {
                match crate::stdlib::extreme_spec(true, first, rest.drop_first()) {
                    Ok(m) => {
                        if m != first {
                            let j = choose|j: int|
                                0 <= j < rest.drop_first().len() && rest.drop_first()[j] == m;
                            assert(rest[j + 1] == m);
                        } else {
                            assert(rest[0] == m);
                        }
                    },
                    Err(_) => {},
                }
            }
        } else {
            lemma_integer_max(acc, rest.drop_first());
            assert forall|i: int| 0 <= i < rest.len() implies #[trigger] rest[i]->Prim_0->Integer_0
                <= (crate::stdlib::extreme_spec(true, acc, rest)->Ok_0)->Prim_0->Integer_0 by {
                if i > 0 {
                    assert(rest.drop_first()[i - 1] == rest[i]);
                }
            }
            assert(crate::stdlib::extreme_spec(true, acc, rest) matches Ok(m) ==> (m == acc
                || rest.contains(m))) by {
                match crate::stdlib::extreme_spec(true, acc, rest.drop_first()) {
                    Ok(m) => {
                        if m != acc {
                            let j = choose|j: int|
                                0 <= j < rest.drop_first().len() && rest.drop_first()[j] == m;
                            assert(rest[j + 1] == m);
                        }
                    },
                    Err(_) => {},
                }
            }
        }
    }
}

/// The fold of `<` over integer arguments yields a minimum of them, as
/// [`lemma_integer_max`] does for `>`.
pub proof fn lemma_integer_min(acc: Value, rest: Seq<Value>)
    requires
        acc matches Value::Prim(PrimV::Integer(_)),
        all_integers(rest),
    ensures
        crate::stdlib::extreme_spec(false, acc, rest) matches Ok(m) && (m == acc || rest.contains(
            m,
        )) && m matches Value::Prim(PrimV::Integer(_)),
        (crate::stdlib::extreme_spec(false, acc, rest)->Ok_0)->Prim_0->Integer_0
            <= acc->Prim_0->Integer_0,
        forall|i: int|
            0 <= i < rest.len() ==> #[trigger] rest[i]->Prim_0->Integer_0 >= (crate::stdlib::extreme_spec(
                false,
                acc,
                rest,
            )->Ok_0)->Prim_0->Integer_0,
    decreases rest,
{
    if rest.len() > 0 {
        assert(rest[0] matches Value::Prim(PrimV::Integer(_)));
        assert(forall|i: int| 0 <= i < rest.drop_first().len() ==> rest.drop_first()[i]
            == rest[i + 1]);
        let first = rest[0];
        let a0 = acc->Prim_0->Integer_0;
        let f0 = first->Prim_0->Integer_0;
        if f0 < a0 {
            lemma_integer_min(first, rest.drop_first());
            assert forall|i: int| 0 <= i < rest.len() implies #[trigger] rest[i]->Prim_0->Integer_0
                >= (crate::stdlib::extreme_spec(false, acc, rest)->Ok_0)->Prim_0->Integer_0 by {
                if i > 0 {
                    assert(rest.drop_first()[i - 1] == rest[i]);
                }
            }
            assert(crate::stdlib::extreme_spec(false, first, rest.drop_first())
                matches Ok(m) ==> (m == first || rest.drop_first().contains(m)) ==> (m == rest[0]
                || rest.contains(m)));
            assert(crate::stdlib::extreme_spec(false, acc, rest) matches Ok(m) ==> (m == acc
                || rest.contains(m))) by {
                match crate::stdlib::extreme_spec(false, first, rest.drop_first()) {
                    Ok(m) => {
                        if m != first {
                            let j = choose|j: int|
                                0 <= j < rest.drop_first().len() && rest.drop_first()[j] == m;
                            assert(rest[j + 1] == m);
                        } else {
                            assert(rest[0] == m);
                        }
                    },
                    Err(_) => {},
                }
            }
        } else {
            lemma_integer_min(acc, rest.drop_first());
            assert forall|i: int| 0 <= i < rest.len() implies #[trigger] rest[i]->Prim_0->Integer_0
                >= (crate::stdlib::extreme_spec(false, acc, rest)->Ok_0)->Prim_0->Integer_0 by {
                if i > 0 {
                    assert(rest.drop_first()[i - 1] == rest[i]);
                }
            }
            assert(crate::stdlib::extreme_spec(false, acc, rest) matches Ok(m) ==> (m == acc
                || rest.contains(m))) by {
                match crate::stdlib::extreme_spec(false, acc, rest.drop_first()) {
                    Ok(m) => {
                        if m != acc {
                            let j = choose|j: int|
                                0 <= j < rest.drop_first().len() && rest.drop_first()[j] == m;
                            assert(rest[j + 1] == m);
                        }
                    },
                    Err(_) => {},
                }
            }
        }
    }
}

} // verus!
