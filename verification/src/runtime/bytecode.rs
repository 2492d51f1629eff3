//! Opcodes and the [`Bytecode`] container, together with their
//! mathematical model ([`OpV`]) used by contracts.

use vstd::prelude::*;

use crate::compiler::ast::{BinaryOperationKind, UnaryOperationKind};

verus! {

/// Opcodes representing instructions which the executor can apply to a
/// [`State`](crate::runtime::state::State).
///
/// Nested control-flow opcodes carry their sub-programs inline, so a program
/// is a tree of opcodes rather than a flat instruction list.
#[derive(Debug)]
pub enum OpCode {
    /// Load the value bound to the given name in the current (or a parent)
    /// scope and push it. Stack: `[] -> [value]`
    Load(String),
    /// Pop a value and bind it to the given name in the current scope.
    /// Stack: `[value] -> []`
    Store(String),
    /// Pop a table and push the value stored under the given key.
    /// Stack: `[table] -> [value]`
    GetKey(String),
    /// Pop a value, then a table. Values are plain data here, so the
    /// popped table is a copy and the write into it goes nowhere: the
    /// opcode only checks that the second value is a table and drops both.
    /// No rule of the grammar produces this opcode.
    /// Stack: `[table, value] -> []`
    SetKey(String),
    /// Push a nil value. Stack: `[] -> [nil]`
    PushNil,
    /// Push a string. Stack: `[] -> [string]`
    PushString(String),
    /// Push an integer. Stack: `[] -> [integer]`
    PushInteger(i64),
    /// Push the float value with the given IEEE-754 bit pattern.
    /// Stack: `[] -> [float]`
    PushFloat(u64),
    /// Push a boolean. Stack: `[] -> [boolean]`
    PushBool(bool),
    /// Push a scripted function with the given body. Stack: `[] -> [function]`
    PushFunction(Vec<OpCode>),
    /// Pop two values and push the result of the binary operation.
    /// Stack: `[lhs, rhs] -> [result]`
    BinaryOperation(BinaryOperationKind),
    /// Pop one value and push the result of the unary operation.
    /// Stack: `[value] -> [result]`
    UnaryOperation(UnaryOperationKind),
    /// Call a function with the given number of arguments.
    /// Stack: `[arg n-1, ..., arg 0, function] -> [ret m-1, ..., ret 0]`
    Call(usize),
    /// Break out of the current loop.
    Break,
    /// Continue to the next iteration of the current loop.
    Continue,
    /// Return from the current function, leaving the top `n` values for the
    /// caller.
    Return(usize),
    /// An if statement; `else_body` also hosts `else if` chains as a nested if.
    If { condition: Vec<OpCode>, body: Vec<OpCode>, else_body: Option<Vec<OpCode>> },
    /// A for loop with optional initialization, condition and increment parts.
    For {
        initialization: Option<Vec<OpCode>>,
        condition: Option<Vec<OpCode>>,
        increment: Option<Vec<OpCode>>,
        body: Vec<OpCode>,
    },
    /// A while loop.
    While { condition: Vec<OpCode>, body: Vec<OpCode> },
    /// An infinite loop, exited through `break` or `return`.
    Loop { body: Vec<OpCode> },
}

/// Container for a compiled program: a sequence of opcodes.
///
/// This type is used rather than a bare `Vec<OpCode>` for
/// forward-compatibility.
pub struct Bytecode {
    pub inner: Vec<OpCode>,
}

impl Bytecode {
    /// The model of this bytecode: the sequence of opcode models.
    pub open spec fn view_ops(&self) -> Seq<OpV> {
        ops_view(self.inner@)
    }

    /// Create an empty bytecode container.
    pub fn new() -> (r: Self)
        ensures
            r.inner@ =~= Seq::<OpCode>::empty(),
    {
        Bytecode { inner: Vec::new() }
    }

    /// Wrap a vector of opcodes.
    pub fn from_ops(ops: Vec<OpCode>) -> (r: Self)
        ensures
            r.inner@ == ops@,
    {
        Bytecode { inner: ops }
    }

    /// Fetch the inner vector of opcodes.
    pub fn inner(&self) -> (r: &Vec<OpCode>)
        ensures
            r@ == self.inner@,
    {
        &self.inner
    }

    /// Consume `self` and return the inner vector of opcodes.
    pub fn into_inner(self) -> (r: Vec<OpCode>)
        ensures
            r@ == self.inner@,
    {
        self.inner
    }

    /// Extends the bytecode with the opcodes of another bytecode, which is
    /// emptied.
    pub fn extend(&mut self, other: &mut Bytecode)
        ensures
            final(self).inner@ == old(self).inner@ + old(other).inner@,
            final(other).inner@ =~= Seq::<OpCode>::empty(),
    {
        self.inner.append(&mut other.inner);
    }

    /// Pushes a single opcode onto the end of the container.
    pub fn push(&mut self, op: OpCode)
        ensures
            final(self).inner@ == old(self).inner@.push(op),
    {
        self.inner.push(op);
    }
}

/// The mathematical model of one opcode: strings become character
/// sequences and nested programs become sequences of opcode models.
pub ghost enum OpV {
    Load(Seq<char>),
    Store(Seq<char>),
    GetKey(Seq<char>),
    SetKey(Seq<char>),
    PushNil,
    PushString(Seq<char>),
    PushInteger(i64),
    PushFloat(u64),
    PushBool(bool),
    PushFunction(Seq<OpV>),
    BinaryOperation(BinaryOperationKind),
    UnaryOperation(UnaryOperationKind),
    Call(nat),
    Break,
    Continue,
    Return(nat),
    If { condition: Seq<OpV>, body: Seq<OpV>, else_body: Option<Seq<OpV>> },
    For {
        initialization: Option<Seq<OpV>>,
        condition: Option<Seq<OpV>>,
        increment: Option<Seq<OpV>>,
        body: Seq<OpV>,
    },
    While { condition: Seq<OpV>, body: Seq<OpV> },
    Loop { body: Seq<OpV> },
}

/// The model of a single opcode.
pub open spec fn op_view(op: OpCode) -> OpV
    decreases op,
{
    match op {
        OpCode::Load(n) => OpV::Load(n@),
        OpCode::Store(n) => OpV::Store(n@),
        OpCode::GetKey(n) => OpV::GetKey(n@),
        OpCode::SetKey(n) => OpV::SetKey(n@),
        OpCode::PushNil => OpV::PushNil,
        OpCode::PushString(s) => OpV::PushString(s@),
        OpCode::PushInteger(x) => OpV::PushInteger(x),
        OpCode::PushFloat(x) => OpV::PushFloat(x),
        OpCode::PushBool(x) => OpV::PushBool(x),
        OpCode::PushFunction(b) => OpV::PushFunction(ops_view(b@)),
        OpCode::BinaryOperation(k) => OpV::BinaryOperation(k),
        OpCode::UnaryOperation(k) => OpV::UnaryOperation(k),
        OpCode::Call(n) => OpV::Call(n as nat),
        OpCode::Break => OpV::Break,
        OpCode::Continue => OpV::Continue,
        OpCode::Return(n) => OpV::Return(n as nat),
        OpCode::If { condition, body, else_body } => OpV::If {
            condition: ops_view(condition@),
            body: ops_view(body@),
            else_body: match else_body {
                Some(e) => Some(ops_view(e@)),
                None => None,
            },
        },
        OpCode::For { initialization, condition, increment, body } => OpV::For {
            initialization: match initialization {
                Some(b) => Some(ops_view(b@)),
                None => None,
            },
            condition: match condition {
                Some(b) => Some(ops_view(b@)),
                None => None,
            },
            increment: match increment {
                Some(b) => Some(ops_view(b@)),
                None => None,
            },
            body: ops_view(body@),
        },
        OpCode::While { condition, body } => OpV::While {
            condition: ops_view(condition@),
            body: ops_view(body@),
        },
        OpCode::Loop { body } => OpV::Loop { body: ops_view(body@) },
    }
}

/// The model of a sequence of opcodes.
pub open spec fn ops_view(s: Seq<OpCode>) -> Seq<OpV>
    decreases s,
{
    if s.len() == 0 {
        Seq::empty()
    } else {
        seq![op_view(s[0])] + ops_view(s.drop_first())
    }
}

/// The size of one opcode model, counting nested sub-programs; used as a
/// termination measure when walking opcode trees.
pub open spec fn opv_size(op: OpV) -> nat
    decreases op,
{
    match op {
        OpV::PushFunction(b) => 1 + opsv_size(b),
        OpV::If { condition, body, else_body } => 1 + opsv_size(condition) + opsv_size(body)
            + opt_size(else_body),
        OpV::For { initialization, condition, increment, body } => 1 + opt_size(initialization)
            + opt_size(condition) + opt_size(increment) + opsv_size(body),
        OpV::While { condition, body } => 1 + opsv_size(condition) + opsv_size(body),
        OpV::Loop { body } => 1 + opsv_size(body),
        _ => 1,
    }
}

/// The total size of a sequence of opcode models.
pub open spec fn opsv_size(s: Seq<OpV>) -> nat
    decreases s,
{
    if s.len() == 0 {
        0
    } else {
        opv_size(s[0]) + opsv_size(s.drop_first())
    }
}

/// The total size of an optional sequence of opcode models.
pub open spec fn opt_size(s: Option<Seq<OpV>>) -> nat
    decreases s,
{
    match s {
        Some(b) => opsv_size(b),
        None => 0,
    }
}


/// Every opcode model has size at least one.
pub proof fn lemma_opv_size_pos(op: OpV)
    ensures
        opv_size(op) >= 1,
{
}

/// Every opcode of a sequence is at most as large as the whole sequence,
/// and a non-empty sequence outweighs its tail.
pub proof fn lemma_opsv_size_parts(s: Seq<OpV>)
    requires
        s.len() > 0,
    ensures
        opsv_size(s) == opv_size(s[0]) + opsv_size(s.drop_first()),
{
}


/// The model of a sequence of opcodes has the same length, and each of its
/// elements is the model of the corresponding opcode.
pub proof fn lemma_ops_view(s: Seq<OpCode>)
    ensures
        ops_view(s).len() == s.len(),
        forall|i: int| 0 <= i < s.len() ==> ops_view(s)[i] == op_view(s[i]),
    decreases s,
{
    if s.len() > 0 {
        lemma_ops_view(s.drop_first());
    }
}

/// Copy one opcode, preserving its model.
pub fn clone_op(op: &OpCode) -> (r: OpCode)
    ensures
        op_view(r) == op_view(*op),
    decreases opv_size(op_view(*op)), 0int,
{
    match op {
        OpCode::Load(n) => OpCode::Load(n.clone()),
        OpCode::Store(n) => OpCode::Store(n.clone()),
        OpCode::GetKey(n) => OpCode::GetKey(n.clone()),
        OpCode::SetKey(n) => OpCode::SetKey(n.clone()),
        OpCode::PushNil => OpCode::PushNil,
        OpCode::PushString(s) => OpCode::PushString(s.clone()),
        OpCode::PushInteger(x) => OpCode::PushInteger(*x),
        OpCode::PushFloat(x) => OpCode::PushFloat(*x),
        OpCode::PushBool(x) => OpCode::PushBool(*x),
        OpCode::PushFunction(b) => OpCode::PushFunction(clone_ops(b)),
        OpCode::BinaryOperation(k) => OpCode::BinaryOperation(*k),
        OpCode::UnaryOperation(k) => OpCode::UnaryOperation(*k),
        OpCode::Call(n) => OpCode::Call(*n),
        OpCode::Break => OpCode::Break,
        OpCode::Continue => OpCode::Continue,
        OpCode::Return(n) => OpCode::Return(*n),
        OpCode::If { condition, body, else_body } => OpCode::If {
            condition: clone_ops(condition),
            body: clone_ops(body),
            else_body: match else_body {
                Some(e) => Some(clone_ops(e)),
                None => None,
            },
        },
        OpCode::For { initialization, condition, increment, body } => OpCode::For {
            initialization: match initialization {
                Some(b) => Some(clone_ops(b)),
                None => None,
            },
            condition: match condition {
                Some(b) => Some(clone_ops(b)),
                None => None,
            },
            increment: match increment {
                Some(b) => Some(clone_ops(b)),
                None => None,
            },
            body: clone_ops(body),
        },
        OpCode::While { condition, body } => OpCode::While {
            condition: clone_ops(condition),
            body: clone_ops(body),
        },
        OpCode::Loop { body } => OpCode::Loop { body: clone_ops(body) },
    }
}

/// Copy a sequence of opcodes, preserving its model.
pub fn clone_ops(v: &Vec<OpCode>) -> (r: Vec<OpCode>)
    ensures
        ops_view(r@) == ops_view(v@),
    decreases opsv_size(ops_view(v@)), 2int,
{
    proof {
        assert(v@.skip(0) =~= v@);
    }
    clone_ops_from(v, 0)
}

/// Copy the opcodes of a sequence from the given position on, preserving
/// their models.
fn clone_ops_from(v: &Vec<OpCode>, i: usize) -> (r: Vec<OpCode>)
    requires
        i <= v.len(),
    ensures
        ops_view(r@) == ops_view(v@.skip(i as int)),
    decreases opsv_size(ops_view(v@.skip(i as int))), 1int,
{
    if i == v.len() {
        proof {
            assert(v@.skip(i as int) =~= Seq::<OpCode>::empty());
        }
        Vec::new()
    } else {
        proof {
            lemma_ops_view(v@.skip(i as int));
            assert(ops_view(v@.skip(i as int))[0] == op_view(v@[i as int]));
            lemma_opsv_size_parts(ops_view(v@.skip(i as int)));
        }
        let head = clone_op(&v[i]);
        proof {
            assert(ops_view(v@.skip(i as int)).drop_first() =~= ops_view(v@.skip(i + 1))) by {
                lemma_ops_view(v@.skip(i as int));
                lemma_ops_view(v@.skip(i + 1));
                assert(v@.skip(i as int).drop_first() =~= v@.skip(i + 1));
                lemma_ops_view(v@.skip(i as int).drop_first());
            }
        }
        let mut rest = clone_ops_from(v, i + 1);
        let ghost rest_snap = rest@;
        let mut r: Vec<OpCode> = Vec::new();
        r.push(head);
        r.append(&mut rest);
        proof {
            let tail = v@.skip(i as int).drop_first();
            assert(tail =~= v@.skip(i + 1));
            assert(r@.drop_first() =~= rest_snap);
            assert(ops_view(r@) == seq![op_view(r@[0])] + ops_view(r@.drop_first()));
            assert(ops_view(r@) =~= ops_view(v@.skip(i as int)));
        }
        r
    }
}


/// The size of one opcode, counting nested sub-programs; a termination
/// measure for executable functions that walk opcode trees.
pub open spec fn op_size(op: OpCode) -> nat
    decreases op,
{
    match op {
        OpCode::PushFunction(b) => 1 + ops_size(b@),
        OpCode::If { condition, body, else_body } => 1 + ops_size(condition@) + ops_size(body@)
            + (match else_body {
            Some(e) => ops_size(e@),
            None => 0,
        }),
        OpCode::For { initialization, condition, increment, body } => {
            1 + (match initialization {
                Some(b) => ops_size(b@),
                None => 0,
            }) + (match condition {
                Some(b) => ops_size(b@),
                None => 0,
            }) + (match increment {
                Some(b) => ops_size(b@),
                None => 0,
            }) + ops_size(body@)
        },
        OpCode::While { condition, body } => 1 + ops_size(condition@) + ops_size(body@),
        OpCode::Loop { body } => 1 + ops_size(body@),
        _ => 1,
    }
}

/// The total size of a sequence of opcodes.
pub open spec fn ops_size(s: Seq<OpCode>) -> nat
    decreases s,
{
    if s.len() == 0 {
        0
    } else {
        op_size(s[0]) + ops_size(s.drop_first())
    }
}

/// Dropping the first opcodes of a sequence splits its size accordingly.
pub proof fn lemma_ops_size_skip(s: Seq<OpCode>, i: int)
    requires
        0 <= i < s.len(),
    ensures
        ops_size(s.skip(i)) == op_size(s[i]) + ops_size(s.skip(i + 1)),
{
    assert(s.skip(i).len() > 0);
    assert(s.skip(i)[0] == s[i]);
    assert(s.skip(i).drop_first() =~= s.skip(i + 1));
}

/// Decide whether two opcodes have the same model.
#[verifier::rlimit(60)]
pub fn op_eq(a: &OpCode, b: &OpCode) -> (r: bool)
    ensures
        r == (op_view(*a) == op_view(*b)),
    decreases op_size(*a), 0int,
{
    match (a, b) {
        (OpCode::Load(x), OpCode::Load(y)) => *x == *y,
        (OpCode::Store(x), OpCode::Store(y)) => *x == *y,
        (OpCode::GetKey(x), OpCode::GetKey(y)) => *x == *y,
        (OpCode::SetKey(x), OpCode::SetKey(y)) => *x == *y,
        (OpCode::PushNil, OpCode::PushNil) => true,
        (OpCode::PushString(x), OpCode::PushString(y)) => *x == *y,
        (OpCode::PushInteger(x), OpCode::PushInteger(y)) => x == y,
        (OpCode::PushFloat(x), OpCode::PushFloat(y)) => x == y,
        (OpCode::PushBool(x), OpCode::PushBool(y)) => x == y,
        (OpCode::PushFunction(x), OpCode::PushFunction(y)) => ops_eq(x, y),
        (OpCode::BinaryOperation(x), OpCode::BinaryOperation(y)) => x == y,
        (OpCode::UnaryOperation(x), OpCode::UnaryOperation(y)) => x == y,
        (OpCode::Call(x), OpCode::Call(y)) => x == y,
        (OpCode::Break, OpCode::Break) => true,
        (OpCode::Continue, OpCode::Continue) => true,
        (OpCode::Return(x), OpCode::Return(y)) => x == y,
        (
            OpCode::If { condition: c1, body: b1, else_body: e1 },
            OpCode::If { condition: c2, body: b2, else_body: e2 },
        ) => {
            let parts = ops_eq(c1, c2) && ops_eq(b1, b2);
            let tails = match (e1, e2) {
                (Some(x), Some(y)) => ops_eq(x, y),
                (None, None) => true,
                _ => false,
            };
            parts && tails
        },
        (
            OpCode::For { initialization: i1, condition: c1, increment: n1, body: b1 },
            OpCode::For { initialization: i2, condition: c2, increment: n2, body: b2 },
        ) => {
            let inits = match (i1, i2) {
                (Some(x), Some(y)) => ops_eq(x, y),
                (None, None) => true,
                _ => false,
            };
            let conds = match (c1, c2) {
                (Some(x), Some(y)) => ops_eq(x, y),
                (None, None) => true,
                _ => false,
            };
            let incrs = match (n1, n2) {
                (Some(x), Some(y)) => ops_eq(x, y),
                (None, None) => true,
                _ => false,
            };
            inits && conds && incrs && ops_eq(b1, b2)
        },
        (
            OpCode::While { condition: c1, body: b1 },
            OpCode::While { condition: c2, body: b2 },
        ) => ops_eq(c1, c2) && ops_eq(b1, b2),
        (OpCode::Loop { body: b1 }, OpCode::Loop { body: b2 }) => ops_eq(b1, b2),
        _ => false,
    }
}

/// Decide whether two opcode sequences have the same model.
pub fn ops_eq(x: &Vec<OpCode>, y: &Vec<OpCode>) -> (r: bool)
    ensures
        r == (ops_view(x@) == ops_view(y@)),
    decreases ops_size(x@), 2int,
{
    proof {
        lemma_ops_view(x@);
        lemma_ops_view(y@);
        assert(x@.skip(0) =~= x@);
        assert(y@.skip(0) =~= y@);
    }
    if x.len() != y.len() {
        return false;
    }
    ops_eq_from(x, y, 0)
}

/// Decide whether two opcode sequences of the same length have the same
/// model from the given position on.
fn ops_eq_from(x: &Vec<OpCode>, y: &Vec<OpCode>, i: usize) -> (r: bool)
    requires
        i <= x.len(),
        x@.len() == y@.len(),
    ensures
        r == (ops_view(x@.skip(i as int)) == ops_view(y@.skip(i as int))),
    decreases ops_size(x@.skip(i as int)), 1int,
{
    proof {
        lemma_ops_view(x@.skip(i as int));
        lemma_ops_view(y@.skip(i as int));
    }
    if i == x.len() {
        proof {
            assert(x@.skip(i as int) =~= Seq::<OpCode>::empty());
            assert(y@.skip(i as int) =~= Seq::<OpCode>::empty());
            assert(ops_view(x@.skip(i as int)) =~= ops_view(y@.skip(i as int)));
        }
        true
    } else {
        proof {
            lemma_ops_size_skip(x@, i as int);
        }
        let heads = op_eq(&x[i], &y[i]);
        if !heads {
            proof {
                assert(ops_view(x@.skip(i as int))[0] == op_view(x@[i as int]));
                assert(ops_view(y@.skip(i as int))[0] == op_view(y@[i as int]));
            }
            return false;
        }
        let tails = ops_eq_from(x, y, i + 1);
        proof {
            assert(x@.skip(i as int).drop_first() =~= x@.skip(i + 1));
            assert(y@.skip(i as int).drop_first() =~= y@.skip(i + 1));
            if tails {
                assert(ops_view(x@.skip(i as int)) =~= ops_view(y@.skip(i as int)));
            } else {
                assert(ops_view(x@.skip(i as int)).drop_first() == ops_view(x@.skip(i + 1)));
                assert(ops_view(y@.skip(i as int)).drop_first() == ops_view(y@.skip(i + 1)));
                assert(ops_view(x@.skip(i as int)) != ops_view(y@.skip(i as int)));
            }
        }
        heads && tails
    }
}

} // verus!
