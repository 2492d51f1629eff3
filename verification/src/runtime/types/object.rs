//! The [`Object`] type: a value of the language, together with its
//! mathematical model [`Value`] and the equality relation of the language.

use vstd::prelude::*;

use crate::runtime::bytecode::{ops_eq, ops_size, op_size};
use crate::runtime::error::RuntimeError;
use crate::runtime::types::floats::float_eq_of;
use crate::runtime::types::function::{clone_function, func_view, FuncV, Function};
use crate::runtime::types::primitive::{clone_primitive, prim_view, PrimV, Primitive};
use crate::runtime::types::table::Table;

verus! {

/// The content of an object: a primitive, a callable function or a table.
pub enum ObjectValue {
    Primitive(Primitive),
    Function(Function),
    Table(Table),
}

/// A value of the language.
///
/// An object carries an optional content and an optional metatable; the
/// metatable is kept in the data model for forward-compatibility, but no
/// operation of the current executor consults it.
pub struct Object {
    /// The content of the object, if any.
    pub value: Option<ObjectValue>,
    /// The metatable of the object, if any.
    pub metatable: Option<Box<Object>>,
}

/// The mathematical model of an object's content. The metatable is not part
/// of the model: no observable operation reads it.
pub ghost enum Value {
    /// An object with no content.
    Vacant,
    /// A primitive value.
    Prim(PrimV),
    /// A callable value.
    Func(FuncV),
    /// A table, as an association sequence with unique keys.
    Tbl(Seq<(Seq<char>, Value)>),
}

/// The model of an object.
pub open spec fn obj_view(o: Object) -> Value
    decreases o,
{
    match o.value {
        None => Value::Vacant,
        Some(ObjectValue::Primitive(p)) => Value::Prim(prim_view(p)),
        Some(ObjectValue::Function(f)) => Value::Func(func_view(f)),
        Some(ObjectValue::Table(t)) => Value::Tbl(table_view(t.inner@)),
    }
}

/// The model of a table's entries.
pub open spec fn table_view(s: Seq<(String, Object)>) -> Seq<(Seq<char>, Value)>
    decreases s,
{
    if s.len() == 0 {
        Seq::empty()
    } else {
        seq![(s[0].0@, obj_view(s[0].1))] + table_view(s.drop_first())
    }
}

/// The model of a table has the same length as the entry list, and each of
/// its entries is the model of the corresponding entry.
pub proof fn lemma_table_view(s: Seq<(String, Object)>)
    ensures
        table_view(s).len() == s.len(),
        forall|i: int|
            0 <= i < s.len() ==> table_view(s)[i] == (s[i].0@, obj_view(s[i].1)),
    decreases s,
{
    if s.len() > 0 {
        lemma_table_view(s.drop_first());
    }
}

/// The size of a value model; a termination measure for functions that walk
/// values.
pub open spec fn val_size(v: Value) -> nat
    decreases v,
{
    match v {
        Value::Tbl(s) => 1 + tblv_size(s),
        _ => 1,
    }
}

/// The total size of a table model.
pub open spec fn tblv_size(s: Seq<(Seq<char>, Value)>) -> nat
    decreases s,
{
    if s.len() == 0 {
        0
    } else {
        1 + val_size(s[0].1) + tblv_size(s.drop_first())
    }
}

/// The value stored under a key in a table model, if any.
pub open spec fn tblv_get(s: Seq<(Seq<char>, Value)>, k: Seq<char>) -> Option<Value>
    decreases s,
{
    if s.len() == 0 {
        None
    } else if s[0].0 == k {
        Some(s[0].1)
    } else {
        tblv_get(s.drop_first(), k)
    }
}

/// The table model after storing a value under a key, replacing any previous
/// value under that key.
pub open spec fn tblv_set(s: Seq<(Seq<char>, Value)>, k: Seq<char>, v: Value) -> Seq<
    (Seq<char>, Value),
>
    decreases s,
{
    if s.len() == 0 {
        seq![(k, v)]
    } else if s[0].0 == k {
        seq![(k, v)] + s.drop_first()
    } else {
        seq![s[0]] + tblv_set(s.drop_first(), k, v)
    }
}

/// Looking a key up one entry at a time.
pub proof fn lemma_tblv_get_step(s: Seq<(Seq<char>, Value)>, i: int, k: Seq<char>)
    requires
        0 <= i < s.len(),
    ensures
        tblv_get(s.skip(i), k) == if s[i].0 == k {
            Some(s[i].1)
        } else {
            tblv_get(s.skip(i + 1), k)
        },
{
    assert(s.skip(i).len() > 0);
    assert(s.skip(i)[0] == s[i]);
    assert(s.skip(i).drop_first() =~= s.skip(i + 1));
}

/// Storing under a key that occurs at position `i`, with no earlier
/// occurrence, updates that position in place.
pub proof fn lemma_tblv_set_update(s: Seq<(Seq<char>, Value)>, i: int, k: Seq<char>, v: Value)
    requires
        0 <= i < s.len(),
        s[i].0 == k,
        forall|j: int| 0 <= j < i ==> s[j].0 != k,
    ensures
        tblv_set(s, k, v) == s.update(i, (k, v)),
    decreases i,
{
    if i == 0 {
        assert(tblv_set(s, k, v) =~= s.update(0, (k, v)));
    } else {
        lemma_tblv_set_update(s.drop_first(), i - 1, k, v);
        assert(tblv_set(s, k, v) =~= s.update(i, (k, v)));
    }
}

/// Storing under a key that occurs nowhere appends a new entry.
pub proof fn lemma_tblv_set_append(s: Seq<(Seq<char>, Value)>, k: Seq<char>, v: Value)
    requires
        forall|j: int| 0 <= j < s.len() ==> s[j].0 != k,
    ensures
        tblv_set(s, k, v) == s.push((k, v)),
    decreases s,
{
    if s.len() == 0 {
        assert(tblv_set(s, k, v) =~= s.push((k, v)));
    } else {
        lemma_tblv_set_append(s.drop_first(), k, v);
        assert(tblv_set(s, k, v) =~= s.push((k, v)));
    }
}

/// Equality of primitive models, as the language defines it: like kinds are
/// compared by value, unlike kinds are unequal, floats compare by IEEE-754
/// equality.
pub open spec fn prim_eq(a: PrimV, b: PrimV) -> bool {
    match (a, b) {
        (PrimV::Nil, PrimV::Nil) => true,
        (PrimV::Integer(x), PrimV::Integer(y)) => x == y,
        (PrimV::Float(x), PrimV::Float(y)) => float_eq_of(x, y),
        (PrimV::Str(x), PrimV::Str(y)) => x == y,
        (PrimV::Boolean(x), PrimV::Boolean(y)) => x == y,
        _ => false,
    }
}

/// Equality of value models, as the language defines it: primitives by
/// value, functions by their bytecode or built-in identity, tables by
/// contents; values of unlike kinds, and objects without content, are never
/// equal.
pub open spec fn val_eq(a: Value, b: Value) -> bool
    decreases val_size(a), 0int,
{
    match (a, b) {
        (Value::Prim(x), Value::Prim(y)) => prim_eq(x, y),
        (Value::Func(f), Value::Func(g)) => f == g,
        (Value::Tbl(s1), Value::Tbl(s2)) => s1.len() == s2.len() && tbl_fwd_eq(s1, s2),
        _ => false,
    }
}

/// Whether every entry of the first table model is matched by an equal
/// entry of the second.
pub open spec fn tbl_fwd_eq(s1: Seq<(Seq<char>, Value)>, s2: Seq<(Seq<char>, Value)>) -> bool
    decreases tblv_size(s1), 0int,
{
    if s1.len() == 0 {
        true
    } else {
        tbl_lookup_eq(s2, s1[0].0, s1[0].1) && tbl_fwd_eq(s1.drop_first(), s2)
    }
}

/// Whether the table model holds, under the given key, a value equal to the
/// given one.
pub open spec fn tbl_lookup_eq(s2: Seq<(Seq<char>, Value)>, k: Seq<char>, v: Value) -> bool
    decreases val_size(v), s2.len() + 1,
{
    if s2.len() == 0 {
        false
    } else if s2[0].0 == k {
        val_eq(v, s2[0].1)
    } else {
        tbl_lookup_eq(s2.drop_first(), k, v)
    }
}

impl Object {
    /// Create a new object with the given content and metatable.
    pub fn new(value: Option<ObjectValue>, metatable: Option<Object>) -> (r: Object)
        ensures
            obj_view(r) == obj_view(Object { value, metatable: None }),
    {
        match metatable {
            Some(m) => Object { value, metatable: Some(Box::new(m)) },
            None => Object { value, metatable: None },
        }
    }


    /// The value stored in this table object under the given key, if the
    /// content is a table and holds the key; an error on any other content.
    pub fn get_key(&self, key: &String) -> (r: Result<Option<Object>, RuntimeError>)
        ensures
            match r {
                Ok(found) => obj_view(*self) matches Value::Tbl(entries) && (match found {
                    Some(o) => tblv_get(obj_view(*self)->Tbl_0, key@) == Some(obj_view(o)),
                    None => tblv_get(obj_view(*self)->Tbl_0, key@) is None,
                }),
                Err(e) => !(obj_view(*self) is Tbl) && e == RuntimeError::NotATable,
            },
    {
        match &self.value {
            Some(ObjectValue::Table(t)) => match t.get(key) {
                Some(o) => Ok(Some(clone_object(o))),
                None => Ok(None),
            },
            _ => Err(RuntimeError::NotATable),
        }
    }

    /// Store a value in this table object under the given key, replacing any
    /// previous value there; an error if the content is not a table.
    pub fn set_key(&mut self, key: String, value: Object) -> (r: Result<(), RuntimeError>)
        requires
            old(self).table_wf(),
        ensures
            final(self).table_wf(),
            match r {
                Ok(()) => obj_view(*old(self)) matches Value::Tbl(entries) && obj_view(
                    *final(self),
                ) == Value::Tbl(tblv_set(entries, key@, obj_view(value))),
                Err(e) => !(obj_view(*old(self)) is Tbl) && e == RuntimeError::NotATable
                    && obj_view(*final(self)) == obj_view(*old(self)),
            },
    {
        match &mut self.value {
            Some(ObjectValue::Table(t)) => {
                t.set(key, value);
                Ok(())
            },
            _ => Err(RuntimeError::NotATable),
        }
    }

    /// Well-formedness of a table content: its keys are unique. Trivially
    /// true of objects with any other content.
    pub open spec fn table_wf(&self) -> bool {
        match self.value {
            Some(ObjectValue::Table(t)) => t.wf(),
            _ => true,
        }
    }

    /// The metatable of the object, if any. The metatable is kept for
    /// forward-compatibility; no operation of the current executor consults
    /// it, and it is not part of the object's model.
    pub fn metatable(&self) -> (r: &Option<Box<Object>>)
        ensures
            r == &self.metatable,
    {
        &self.metatable
    }

    /// Replace the metatable of the object. The object's model is unchanged.
    pub fn set_metatable(&mut self, metatable: Option<Object>)
        ensures
            obj_view(*final(self)) == obj_view(*old(self)),
            final(self).table_wf() == old(self).table_wf(),
    {
        self.metatable = match metatable {
            Some(m) => Some(Box::new(m)),
            None => None,
        };
    }

    /// The primitive content of the object, if its content is a primitive.
    pub fn as_primitive(&self) -> (r: Option<Primitive>)
        ensures
            match r {
                Some(p) => obj_view(*self) == Value::Prim(prim_view(p)),
                None => !(obj_view(*self) is Prim),
            },
    {
        match &self.value {
            Some(ObjectValue::Primitive(p)) => Some(clone_primitive(p)),
            _ => None,
        }
    }

    /// The boolean content of the object, if its content is a boolean.
    pub fn as_bool(&self) -> (r: Option<bool>)
        ensures
            match r {
                Some(x) => obj_view(*self) == Value::Prim(PrimV::Boolean(x)),
                None => forall|x: bool| obj_view(*self) != Value::Prim(PrimV::Boolean(x)),
            },
    {
        match &self.value {
            Some(ObjectValue::Primitive(Primitive::Boolean(x))) => Some(*x),
            _ => None,
        }
    }
}

/// Copy an object, preserving its model and its metatable.
pub fn clone_object(o: &Object) -> (r: Object)
    ensures
        obj_view(r) == obj_view(*o),
    decreases osize(*o), 1int,
{
    let value = match &o.value {
        None => None,
        Some(ObjectValue::Primitive(p)) => Some(ObjectValue::Primitive(clone_primitive(p))),
        Some(ObjectValue::Function(f)) => Some(ObjectValue::Function(clone_function(f))),
        Some(ObjectValue::Table(t)) => Some(
            ObjectValue::Table(Table { inner: clone_entries(&t.inner) }),
        ),
    };
    let metatable = match &o.metatable {
        Some(m) => Some(Box::new(clone_object(m))),
        None => None,
    };
    Object { value, metatable }
}

/// Copy the entries of a table, preserving their models.
fn clone_entries(v: &Vec<(String, Object)>) -> (r: Vec<(String, Object)>)
    ensures
        table_view(r@) == table_view(v@),
    decreases entries_size(v@), 3int,
{
    proof {
        assert(v@.skip(0) =~= v@);
    }
    clone_entries_from(v, 0)
}

/// Copy the entries of a table from the given position on.
fn clone_entries_from(v: &Vec<(String, Object)>, i: usize) -> (r: Vec<(String, Object)>)
    requires
        i <= v.len(),
    ensures
        table_view(r@) == table_view(v@.skip(i as int)),
    decreases entries_size(v@.skip(i as int)), 2int,
{
    if i == v.len() {
        proof {
            assert(v@.skip(i as int) =~= Seq::<(String, Object)>::empty());
        }
        Vec::new()
    } else {
        proof {
            assert(v@.skip(i as int)[0] == v@[i as int]);
            assert(v@.skip(i as int).drop_first() =~= v@.skip(i + 1));
        }
        let entry = &v[i];
        let head = (entry.0.clone(), clone_object(&entry.1));
        let mut rest = clone_entries_from(v, i + 1);
        let ghost rest_snap = rest@;
        let mut r: Vec<(String, Object)> = Vec::new();
        r.push(head);
        r.append(&mut rest);
        proof {
            assert(r@.drop_first() =~= rest_snap);
            assert(table_view(r@) =~= table_view(v@.skip(i as int)));
        }
        r
    }
}

/// The size of an object, counting its content, its metatable and the
/// bytecode of function values; a termination measure for functions that
/// walk objects.
pub open spec fn osize(o: Object) -> nat
    decreases o,
{
    1 + (match o.metatable {
        Some(m) => osize(*m),
        None => 0,
    }) + (match o.value {
        None => 0,
        Some(ObjectValue::Primitive(_)) => 0,
        Some(ObjectValue::Function(f)) => match f {
            Function::Scripted(sf) => ops_size(sf.bytecode.inner@),
            Function::Wrapped(_) => 0,
        },
        Some(ObjectValue::Table(t)) => entries_size(t.inner@),
    })
}

/// The total size of a table's entries.
pub open spec fn entries_size(s: Seq<(String, Object)>) -> nat
    decreases s,
{
    if s.len() == 0 {
        0
    } else {
        1 + osize(s[0].1) + entries_size(s.drop_first())
    }
}

/// Splitting the size of a table's entries at a position.
pub proof fn lemma_entries_size_skip(s: Seq<(String, Object)>, i: int)
    requires
        0 <= i < s.len(),
    ensures
        entries_size(s.skip(i)) == 1 + osize(s[i].1) + entries_size(s.skip(i + 1)),
{
    assert(s.skip(i).len() > 0);
    assert(s.skip(i)[0] == s[i]);
    assert(s.skip(i).drop_first() =~= s.skip(i + 1));
}

/// Decide whether two objects are equal under the equality relation of the
/// language.
pub fn obj_eq(a: &Object, b: &Object) -> (r: bool)
    ensures
        r == val_eq(obj_view(*a), obj_view(*b)),
    decreases osize(*a), 0int,
{
    match (&a.value, &b.value) {
        (Some(ObjectValue::Primitive(p)), Some(ObjectValue::Primitive(q))) => prim_eq_exec(p, q),
        (Some(ObjectValue::Function(f)), Some(ObjectValue::Function(g))) => func_eq(f, g),
        (Some(ObjectValue::Table(t1)), Some(ObjectValue::Table(t2))) => {
            proof {
                lemma_table_view(t1.inner@);
                lemma_table_view(t2.inner@);
                assert(t1.inner@.skip(0) =~= t1.inner@);
            }
            if t1.inner.len() != t2.inner.len() {
                return false;
            }
            tbl_fwd_eq_exec(&t1.inner, 0, &t2.inner)
        },
        _ => false,
    }
}

/// Decide whether two primitives are equal under the equality relation of
/// the language.
pub fn prim_eq_exec(a: &Primitive, b: &Primitive) -> (r: bool)
    ensures
        r == prim_eq(prim_view(*a), prim_view(*b)),
{
    match (a, b) {
        (Primitive::Nil, Primitive::Nil) => true,
        (Primitive::Integer(x), Primitive::Integer(y)) => x == y,
        (Primitive::Float(x), Primitive::Float(y)) => crate::runtime::types::floats::float_equal(
            *x,
            *y,
        ),
        (Primitive::Str(x), Primitive::Str(y)) => *x == *y,
        (Primitive::Boolean(x), Primitive::Boolean(y)) => x == y,
        _ => false,
    }
}

/// Decide whether two callable values are equal: scripted functions by their
/// bytecode, built-ins by identity.
pub fn func_eq(f: &Function, g: &Function) -> (r: bool)
    ensures
        r == (func_view(*f) == func_view(*g)),
{
    match (f, g) {
        (Function::Scripted(a), Function::Scripted(b)) => ops_eq(
            &a.bytecode.inner,
            &b.bytecode.inner,
        ),
        (Function::Wrapped(a), Function::Wrapped(b)) => a == b,
        _ => false,
    }
}

/// Decide whether every entry of the first table, from position `i` on, is
/// matched by an equal entry of the second.
fn tbl_fwd_eq_exec(s1: &Vec<(String, Object)>, i: usize, s2: &Vec<(String, Object)>) -> (r: bool)
    requires
        i <= s1.len(),
    ensures
        r == tbl_fwd_eq(table_view(s1@.skip(i as int)), table_view(s2@)),
    decreases entries_size(s1@.skip(i as int)), 3int,
{
    proof {
        lemma_table_view(s1@.skip(i as int));
    }
    if i == s1.len() {
        proof {
            assert(s1@.skip(i as int) =~= Seq::<(String, Object)>::empty());
        }
        true
    } else {
        proof {
            lemma_entries_size_skip(s1@, i as int);
            assert(s1@.skip(i as int)[0] == s1@[i as int]);
            assert(s1@.skip(i as int).drop_first() =~= s1@.skip(i + 1));
            assert(table_view(s1@.skip(i as int))[0] == (
                s1@[i as int].0@,
                obj_view(s1@[i as int].1),
            ));
            assert(table_view(s1@.skip(i as int)).drop_first() == table_view(s1@.skip(i + 1)));
        }
        let entry = &s1[i];
        let found = tbl_lookup_eq_exec(s2, 0, &entry.0, &entry.1);
        proof {
            assert(s2@.skip(0) =~= s2@);
        }
        if !found {
            return false;
        }
        tbl_fwd_eq_exec(s1, i + 1, s2)
    }
}

/// Decide whether the second table holds, from position `j` on, a value
/// equal to `v` under the key `k`.
fn tbl_lookup_eq_exec(s2: &Vec<(String, Object)>, j: usize, k: &String, v: &Object) -> (r: bool)
    requires
        j <= s2.len(),
    ensures
        r == tbl_lookup_eq(table_view(s2@.skip(j as int)), k@, obj_view(*v)),
    decreases osize(*v), s2@.len() - j + 1,
{
    proof {
        lemma_table_view(s2@.skip(j as int));
    }
    if j == s2.len() {
        proof {
            assert(s2@.skip(j as int) =~= Seq::<(String, Object)>::empty());
        }
        false
    } else {
        proof {
            assert(s2@.skip(j as int)[0] == s2@[j as int]);
            assert(s2@.skip(j as int).drop_first() =~= s2@.skip(j + 1));
            assert(table_view(s2@.skip(j as int))[0] == (
                s2@[j as int].0@,
                obj_view(s2@[j as int].1),
            ));
            assert(table_view(s2@.skip(j as int)).drop_first() == table_view(s2@.skip(j + 1)));
        }
        let entry = &s2[j];
        if entry.0 == *k {
            obj_eq(v, &entry.1)
        } else {
            tbl_lookup_eq_exec(s2, j + 1, k, v)
        }
    }
}

} // verus!
