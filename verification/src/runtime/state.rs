//! The [`State`] type: the memory portion of the program.
//!
//! A state holds the call stack. The executor acts on the state; the same
//! bytecode may give different outcomes on different states. The frame at a
//! higher stack position is lexically nested in the frames below it, so the
//! parent chain of a frame consists of the frames under it.

use vstd::prelude::*;

use crate::runtime::types::object::{
    clone_object, obj_view, table_view, tblv_get, tblv_set, Object, Value,
};
use crate::runtime::types::primitive::PrimV;
use crate::runtime::types::table::Table;
use crate::runtime::types::utilities::nil;

verus! {

/// A single frame of the call stack: a context in which bytecode executes,
/// with its own operand stack and its own local variables.
pub struct CallFrame {
    /// The operand stack of the frame.
    pub operands: Vec<Object>,
    /// The local variables of the frame.
    pub locals: Table,
}

/// The mathematical model of a call frame.
#[verifier::ext_equal]
pub ghost struct FrameV {
    /// The operand stack, bottom first.
    pub ops: Seq<Value>,
    /// The local variables, as an association sequence with unique keys.
    pub locals: Seq<(Seq<char>, Value)>,
}

/// The model of a sequence of objects.
pub open spec fn objs_view(s: Seq<Object>) -> Seq<Value>
    decreases s,
{
    if s.len() == 0 {
        Seq::empty()
    } else {
        seq![obj_view(s[0])] + objs_view(s.drop_first())
    }
}

/// The model of a sequence of objects has the same length, and each of its
/// elements is the model of the corresponding object.
pub proof fn lemma_objs_view(s: Seq<Object>)
    ensures
        objs_view(s).len() == s.len(),
        forall|i: int| 0 <= i < s.len() ==> objs_view(s)[i] == obj_view(s[i]),
    decreases s,
{
    if s.len() > 0 {
        lemma_objs_view(s.drop_first());
    }
}

impl View for CallFrame {
    type V = FrameV;

    open spec fn view(&self) -> FrameV {
        FrameV { ops: objs_view(self.operands@), locals: table_view(self.locals.inner@) }
    }
}

impl CallFrame {
    /// Well-formedness: the local variable names are unique.
    pub open spec fn wf(&self) -> bool {
        self.locals.wf()
    }

    /// Create a new call frame with no locals and an empty operand stack.
    pub fn new() -> (r: Self)
        ensures
            r@.ops =~= Seq::<Value>::empty(),
            r@.locals =~= Seq::<(Seq<char>, Value)>::empty(),
            r.wf(),
    {
        CallFrame { operands: Vec::new(), locals: Table::new() }
    }

    /// Push a copy of the object onto the operand stack.
    pub fn push(&mut self, object: &Object)
        ensures
            final(self)@.ops == old(self)@.ops.push(obj_view(*object)),
            final(self)@.locals == old(self)@.locals,
            final(self).wf() == old(self).wf(),
    {
        proof {
            lemma_objs_view(self.operands@);
        }
        let copy = clone_object(object);
        self.operands.push(copy);
        proof {
            lemma_objs_view(self.operands@);
            assert(final(self)@.ops =~= old(self)@.ops.push(obj_view(*object)));
        }
    }

    /// Pop an object off the operand stack; `None` if the stack is empty.
    pub fn pop(&mut self) -> (r: Option<Object>)
        ensures
            final(self)@.locals == old(self)@.locals,
            final(self).wf() == old(self).wf(),
            match r {
                Some(o) => old(self)@.ops.len() > 0 && obj_view(o) == old(self)@.ops.last()
                    && final(self)@.ops == old(self)@.ops.drop_last(),
                None => old(self)@.ops.len() == 0 && final(self)@.ops == old(self)@.ops,
            },
    {
        proof {
            lemma_objs_view(self.operands@);
        }
        let r = self.operands.pop();
        proof {
            lemma_objs_view(self.operands@);
            if old(self).operands@.len() > 0 {
                assert(final(self)@.ops =~= old(self)@.ops.drop_last());
            } else {
                assert(final(self)@.ops =~= old(self)@.ops);
            }
        }
        r
    }

    /// A copy of the top of the operand stack; `None` if the stack is empty.
    pub fn peek(&self) -> (r: Option<Object>)
        ensures
            match r {
                Some(o) => self@.ops.len() > 0 && obj_view(o) == self@.ops.last(),
                None => self@.ops.len() == 0,
            },
    {
        proof {
            lemma_objs_view(self.operands@);
        }
        if self.operands.len() == 0 {
            None
        } else {
            Some(clone_object(&self.operands[self.operands.len() - 1]))
        }
    }

    /// The number of objects on the operand stack.
    pub fn stack_size(&self) -> (r: usize)
        ensures
            r == self@.ops.len(),
    {
        proof {
            lemma_objs_view(self.operands@);
        }
        self.operands.len()
    }

    /// Look up a local variable of this frame; `None` if it is not bound
    /// here. Parent frames are not consulted.
    pub fn load_local(&self, name: &String) -> (r: Option<&Object>)
        ensures
            match r {
                Some(o) => tblv_get(self@.locals, name@) == Some(obj_view(*o)),
                None => tblv_get(self@.locals, name@) is None,
            },
    {
        self.locals.get(name)
    }

    /// Pop the top of the operand stack and bind it to the given name in
    /// this frame, replacing any previous binding of that name here.
    pub fn store_local(&mut self, name: String)
        requires
            old(self).wf(),
            old(self)@.ops.len() >= 1,
        ensures
            final(self).wf(),
            final(self)@.ops == old(self)@.ops.drop_last(),
            final(self)@.locals == tblv_set(old(self)@.locals, name@, old(self)@.ops.last()),
    {
        let value = match self.pop() {
            Some(v) => v,
            None => nil(),
        };
        self.locals.set(name, value);
    }
}

/// The mathematical model of a state.
#[verifier::ext_equal]
pub ghost struct StateV {
    /// The call stack, global frame first.
    pub frames: Seq<FrameV>,
    /// Everything the program has printed.
    pub output: Seq<char>,
    /// The remaining step budget.
    pub steps: u64,
}

/// The model of a sequence of call frames.
pub open spec fn frames_view(s: Seq<CallFrame>) -> Seq<FrameV>
    decreases s,
{
    if s.len() == 0 {
        Seq::empty()
    } else {
        seq![s[0]@] + frames_view(s.drop_first())
    }
}

/// The model of a sequence of call frames has the same length, and each of
/// its elements is the model of the corresponding frame.
pub proof fn lemma_frames_view(s: Seq<CallFrame>)
    ensures
        frames_view(s).len() == s.len(),
        forall|i: int| 0 <= i < s.len() ==> frames_view(s)[i] == s[i]@,
    decreases s,
{
    if s.len() > 0 {
        lemma_frames_view(s.drop_first());
    }
}

/// The value that loading a name against a chain of frames produces: the
/// binding of the topmost frame that binds the name, or nil if no frame
/// binds it.
pub open spec fn lookup_spec(frames: Seq<FrameV>, name: Seq<char>) -> Value
    decreases frames.len(),
{
    if frames.len() == 0 {
        Value::Prim(PrimV::Nil)
    } else {
        match tblv_get(frames.last().locals, name) {
            Some(v) => v,
            None => lookup_spec(frames.drop_last(), name),
        }
    }
}

/// The memory portion of the program: the call stack, what the program has
/// printed, and the remaining step budget.
///
/// A script can only be executed with respect to one state at a time.
pub struct State {
    /// Call stack. The last element is the current frame, which the executor
    /// primarily operates on.
    pub stack: Vec<CallFrame>,
    /// Everything the program has printed so far. The built-in `print` also
    /// forwards each line to standard output as it runs.
    pub output: String,
    /// The remaining step budget: each loop iteration and each function call
    /// consumes one step, and execution stops with an error when the budget
    /// runs out.
    pub steps: u64,
}

impl View for State {
    type V = StateV;

    open spec fn view(&self) -> StateV {
        StateV { frames: frames_view(self.stack@), output: self.output@, steps: self.steps }
    }
}

impl State {
    /// Well-formedness: there is at least one frame (the global frame), and
    /// the locals of every frame have unique names.
    pub open spec fn wf(&self) -> bool {
        &&& self.stack@.len() >= 1
        &&& forall|i: int| 0 <= i < self.stack@.len() ==> self.stack@[i].wf()
    }

    /// Push a new call frame, with no locals, onto the call stack.
    pub fn push_frame(&mut self)
        ensures
            final(self)@.frames == old(self)@.frames.push(
                FrameV { ops: Seq::empty(), locals: Seq::empty() },
            ),
            final(self)@.output == old(self)@.output,
            final(self)@.steps == old(self)@.steps,
            old(self).wf() ==> final(self).wf(),
    {
        proof {
            lemma_frames_view(self.stack@);
        }
        self.stack.push(CallFrame::new());
        proof {
            lemma_frames_view(self.stack@);
            assert(final(self)@.frames =~= old(self)@.frames.push(
                FrameV { ops: Seq::empty(), locals: Seq::empty() },
            ));
        }
    }

    /// Pop the current call frame off the call stack. The global frame is
    /// never popped.
    pub fn pop_frame(&mut self)
        requires
            old(self)@.frames.len() >= 2,
        ensures
            final(self)@.frames == old(self)@.frames.drop_last(),
            final(self)@.output == old(self)@.output,
            final(self)@.steps == old(self)@.steps,
            old(self).wf() ==> final(self).wf(),
    {
        proof {
            lemma_frames_view(self.stack@);
        }
        let _ = self.stack.pop();
        proof {
            lemma_frames_view(self.stack@);
            assert(final(self)@.frames =~= old(self)@.frames.drop_last());
        }
    }

    /// Push a copy of the object onto the current frame's operand stack.
    pub fn push(&mut self, object: &Object)
        requires
            old(self)@.frames.len() >= 1,
        ensures
            final(self)@.frames.len() == old(self)@.frames.len(),
            forall|i: int|
                0 <= i < old(self)@.frames.len() - 1 ==> final(self)@.frames[i] == old(
                    self,
                )@.frames[i],
            final(self)@.frames.last().locals == old(self)@.frames.last().locals,
            final(self)@.frames.last().ops == old(self)@.frames.last().ops.push(obj_view(*object)),
            final(self)@.output == old(self)@.output,
            final(self)@.steps == old(self)@.steps,
            old(self).wf() ==> final(self).wf(),
    {
        proof {
            lemma_frames_view(self.stack@);
        }
        let mut frame = match self.stack.pop() {
            Some(f) => f,
            None => CallFrame::new(),
        };
        frame.push(object);
        self.stack.push(frame);
        proof {
            lemma_frames_view(self.stack@);
            assert(old(self).stack@.drop_last().push(old(self).stack@.last()) =~= old(
                self,
            ).stack@);
        }
    }

    /// Push copies of the objects, in the given order, so that the last
    /// element ends up on top of the stack.
    pub fn push_all(&mut self, objects: &Vec<Object>)
        requires
            old(self)@.frames.len() >= 1,
        ensures
            final(self)@.frames.len() == old(self)@.frames.len(),
            forall|i: int|
                0 <= i < old(self)@.frames.len() - 1 ==> final(self)@.frames[i] == old(
                    self,
                )@.frames[i],
            final(self)@.frames.last().locals == old(self)@.frames.last().locals,
            final(self)@.frames.last().ops == old(self)@.frames.last().ops + objs_view(objects@),
            final(self)@.output == old(self)@.output,
            final(self)@.steps == old(self)@.steps,
            old(self).wf() ==> final(self).wf(),
    {
        proof {
            lemma_objs_view(objects@);
        }
        let mut i: usize = 0;
        while i < objects.len()
            invariant
                i <= objects@.len(),
                objs_view(objects@).len() == objects@.len(),
                forall|k: int|
                    0 <= k < objects@.len() ==> objs_view(objects@)[k] == obj_view(objects@[k]),
                self@.frames.len() == old(self)@.frames.len() >= 1,
                forall|k: int|
                    0 <= k < old(self)@.frames.len() - 1 ==> self@.frames[k] == old(
                        self,
                    )@.frames[k],
                self@.frames.last().locals == old(self)@.frames.last().locals,
                self@.frames.last().ops == old(self)@.frames.last().ops + objs_view(
                    objects@,
                ).take(i as int),
                self@.output == old(self)@.output,
                self@.steps == old(self)@.steps,
                old(self).wf() ==> self.wf(),
            decreases objects@.len() - i,
        {
            self.push(&objects[i]);
            proof {
                assert(old(self)@.frames.last().ops + objs_view(objects@).take(i as int)
                    + seq![obj_view(objects@[i as int])] =~= old(self)@.frames.last().ops
                    + objs_view(objects@).take(i + 1));
            }
            i = i + 1;
        }
        proof {
            assert(objs_view(objects@).take(objects@.len() as int) =~= objs_view(objects@));
        }
    }

    /// Pop an object off the current frame's operand stack; `None` if that
    /// stack is empty.
    pub fn pop(&mut self) -> (r: Option<Object>)
        requires
            old(self)@.frames.len() >= 1,
        ensures
            final(self)@.frames.len() == old(self)@.frames.len(),
            forall|i: int|
                0 <= i < old(self)@.frames.len() - 1 ==> final(self)@.frames[i] == old(
                    self,
                )@.frames[i],
            final(self)@.frames.last().locals == old(self)@.frames.last().locals,
            final(self)@.output == old(self)@.output,
            final(self)@.steps == old(self)@.steps,
            old(self).wf() ==> final(self).wf(),
            match r {
                Some(o) => old(self)@.frames.last().ops.len() > 0 && obj_view(o) == old(
                    self,
                )@.frames.last().ops.last() && final(self)@.frames.last().ops == old(
                    self,
                )@.frames.last().ops.drop_last(),
                None => old(self)@.frames.last().ops.len() == 0 && final(self)@.frames.last().ops
                    == old(self)@.frames.last().ops,
            },
    {
        proof {
            lemma_frames_view(self.stack@);
        }
        let mut frame = match self.stack.pop() {
            Some(f) => f,
            None => CallFrame::new(),
        };
        let r = frame.pop();
        self.stack.push(frame);
        proof {
            lemma_frames_view(self.stack@);
            assert(old(self).stack@.drop_last().push(old(self).stack@.last()) =~= old(
                self,
            ).stack@);
        }
        r
    }

    /// Pop `n` objects off the current frame's operand stack. The first
    /// element of the result is the former top of the stack.
    pub fn pop_n(&mut self, n: usize) -> (r: Vec<Object>)
        requires
            old(self)@.frames.len() >= 1,
            old(self)@.frames.last().ops.len() >= n,
        ensures
            final(self)@.frames.len() == old(self)@.frames.len(),
            forall|i: int|
                0 <= i < old(self)@.frames.len() - 1 ==> final(self)@.frames[i] == old(
                    self,
                )@.frames[i],
            final(self)@.frames.last().locals == old(self)@.frames.last().locals,
            final(self)@.frames.last().ops == old(self)@.frames.last().ops.take(
                old(self)@.frames.last().ops.len() - n,
            ),
            final(self)@.output == old(self)@.output,
            final(self)@.steps == old(self)@.steps,
            old(self).wf() ==> final(self).wf(),
            r@.len() == n,
            forall|k: int|
                0 <= k < n ==> obj_view(r@[k]) == old(self)@.frames.last().ops[old(
                    self,
                )@.frames.last().ops.len() - 1 - k],
    {
        let ghost orig = old(self)@.frames.last().ops;
        let mut r: Vec<Object> = Vec::new();
        proof {
            lemma_objs_view(r@);
        }
        let mut i: usize = 0;
        while i < n
            invariant
                i <= n,
                orig.len() >= n,
                self@.frames.len() == old(self)@.frames.len() >= 1,
                forall|k: int|
                    0 <= k < old(self)@.frames.len() - 1 ==> self@.frames[k] == old(
                        self,
                    )@.frames[k],
                self@.frames.last().locals == old(self)@.frames.last().locals,
                self@.frames.last().ops == orig.take(orig.len() - i),
                self@.output == old(self)@.output,
                self@.steps == old(self)@.steps,
                old(self).wf() ==> self.wf(),
                r@.len() == i,
                forall|k: int| 0 <= k < i ==> obj_view(r@[k]) == orig[orig.len() - 1 - k],
            decreases n - i,
        {
            proof {
                lemma_objs_view(r@);
            }
            let popped = match self.pop() {
                Some(o) => o,
                None => nil(),
            };
            r.push(popped);
            proof {
                lemma_objs_view(r@);
                assert(orig.take(orig.len() - i).drop_last() =~= orig.take(orig.len() - (i + 1)));
                assert(orig.take(orig.len() - i).last() == orig[orig.len() - 1 - i]);
            }
            i = i + 1;
        }
        r
    }

    /// A copy of the top of the current frame's operand stack; `None` if
    /// that stack is empty.
    pub fn peek(&self) -> (r: Option<Object>)
        requires
            self@.frames.len() >= 1,
        ensures
            match r {
                Some(o) => self@.frames.last().ops.len() > 0 && obj_view(o)
                    == self@.frames.last().ops.last(),
                None => self@.frames.last().ops.len() == 0,
            },
    {
        proof {
            lemma_frames_view(self.stack@);
        }
        self.stack[self.stack.len() - 1].peek()
    }

    /// The number of objects on the current frame's operand stack.
    pub fn operand_stack_size(&self) -> (r: usize)
        requires
            self@.frames.len() >= 1,
        ensures
            r == self@.frames.last().ops.len(),
    {
        proof {
            lemma_frames_view(self.stack@);
        }
        self.stack[self.stack.len() - 1].stack_size()
    }

    /// Bind a value in the global (bottom-most) frame.
    pub fn set_global(&mut self, name: &str, obj: Object)
        requires
            old(self).wf(),
        ensures
            final(self).wf(),
            final(self)@.frames.len() == old(self)@.frames.len(),
            forall|i: int|
                1 <= i < old(self)@.frames.len() ==> final(self)@.frames[i] == old(
                    self,
                )@.frames[i],
            final(self)@.frames[0].ops == old(self)@.frames[0].ops,
            final(self)@.frames[0].locals == tblv_set(
                old(self)@.frames[0].locals,
                name@,
                obj_view(obj),
            ),
            final(self)@.output == old(self)@.output,
            final(self)@.steps == old(self)@.steps,
    {
        proof {
            lemma_frames_view(self.stack@);
        }
        let owned = name.to_owned();
        let mut frame = self.stack.remove(0);
        frame.locals.set(owned, obj);
        self.stack.insert(0, frame);
        proof {
            lemma_frames_view(self.stack@);
            assert(old(self).stack@.remove(0).insert(0, old(self).stack@[0]) =~= old(
                self,
            ).stack@);
        }
    }

    /// Pop the top of the current frame's operand stack and bind it in the
    /// current frame, replacing any previous binding of that name there.
    pub fn store_local(&mut self, name: String)
        requires
            old(self).wf(),
            old(self)@.frames.last().ops.len() >= 1,
        ensures
            final(self).wf(),
            final(self)@.frames.len() == old(self)@.frames.len(),
            forall|i: int|
                0 <= i < old(self)@.frames.len() - 1 ==> final(self)@.frames[i] == old(
                    self,
                )@.frames[i],
            final(self)@.frames.last().ops == old(self)@.frames.last().ops.drop_last(),
            final(self)@.frames.last().locals == tblv_set(
                old(self)@.frames.last().locals,
                name@,
                old(self)@.frames.last().ops.last(),
            ),
            final(self)@.output == old(self)@.output,
            final(self)@.steps == old(self)@.steps,
    {
        proof {
            lemma_frames_view(self.stack@);
        }
        let mut frame = match self.stack.pop() {
            Some(f) => f,
            None => CallFrame::new(),
        };
        frame.store_local(name);
        self.stack.push(frame);
        proof {
            lemma_frames_view(self.stack@);
            assert(old(self).stack@.drop_last().push(old(self).stack@.last()) =~= old(
                self,
            ).stack@);
        }
    }

    /// Load the value bound to the given name, walking the frame chain from
    /// the current frame downwards, and push it onto the current frame's
    /// operand stack; nil if no frame binds the name. Reading never disturbs
    /// any other frame.
    pub fn load(&mut self, name: &String)
        requires
            old(self).wf(),
        ensures
            final(self).wf(),
            final(self)@.frames.len() == old(self)@.frames.len(),
            forall|i: int|
                0 <= i < old(self)@.frames.len() - 1 ==> final(self)@.frames[i] == old(
                    self,
                )@.frames[i],
            final(self)@.frames.last().locals == old(self)@.frames.last().locals,
            final(self)@.frames.last().ops == old(self)@.frames.last().ops.push(
                lookup_spec(old(self)@.frames, name@),
            ),
            final(self)@.output == old(self)@.output,
            final(self)@.steps == old(self)@.steps,
    {
        proof {
            lemma_frames_view(self.stack@);
            assert(frames_view(self.stack@).take(self.stack@.len() as int) =~= frames_view(
                self.stack@,
            ));
        }
        let value = lookup_value(&self.stack, self.stack.len(), name);
        self.push(&value);
    }
}


impl State {
    /// Create a fresh state: one (global) frame holding the standard
    /// library's bindings, empty output, and the full step budget.
    pub fn new() -> (r: State)
        ensures
            r.wf(),
            r@.frames.len() == 1,
            r@.frames[0].ops =~= Seq::<Value>::empty(),
            r@.frames[0].locals == crate::stdlib::stdlib_bindings(Seq::empty()),
            r@.output =~= Seq::<char>::empty(),
            r@.steps == u64::MAX,
    {
        let mut result = State { stack: Vec::new(), output: String::new(), steps: u64::MAX };
        result.push_frame();
        proof {
            lemma_frames_view(result.stack@);
        }
        crate::stdlib::register(&mut result);
        result
    }
}

impl Default for State {
    /// Same as [`State::new`].
    fn default() -> (r: State)
        ensures
            r.wf(),
            r@.frames.len() == 1,
            r@.frames[0].ops =~= Seq::<Value>::empty(),
            r@.frames[0].locals == crate::stdlib::stdlib_bindings(Seq::empty()),
            r@.output =~= Seq::<char>::empty(),
            r@.steps == u64::MAX,
    {
        State::new()
    }
}

/// Load the value bound to the given name against the lowest `i` frames of
/// the chain; nil if none of them binds the name.
fn lookup_value(stack: &Vec<CallFrame>, i: usize, name: &String) -> (r: Object)
    requires
        i <= stack@.len(),
    ensures
        obj_view(r) == lookup_spec(frames_view(stack@).take(i as int), name@),
    decreases i,
{
    proof {
        lemma_frames_view(stack@);
    }
    if i == 0 {
        proof {
            assert(frames_view(stack@).take(0) =~= Seq::<FrameV>::empty());
        }
        nil()
    } else {
        proof {
            assert(frames_view(stack@).take(i as int).last() == stack@[i - 1]@);
            assert(frames_view(stack@).take(i as int).drop_last() =~= frames_view(stack@).take(
                i - 1,
            ));
        }
        match stack[i - 1].load_local(name) {
            Some(o) => clone_object(o),
            None => lookup_value(stack, i - 1, name),
        }
    }
}

} // verus!
