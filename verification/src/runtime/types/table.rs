//! The [`Table`] type: a string-keyed map of values.
//!
//! Tables are part of the data model so that complex user-defined data
//! structures can be added later; no operator of the current language
//! dispatches through them.

use vstd::prelude::*;

use crate::runtime::types::object::{
    lemma_table_view, lemma_tblv_set_append, lemma_tblv_set_update, obj_view, table_view, tblv_get,
    tblv_set, Object, Value,
};

verus! {

/// A string-keyed map of values, held as an association list whose keys are
/// unique.
pub struct Table {
    /// The entries of the table; see [`Table::wf`].
    pub inner: Vec<(String, Object)>,
}

impl Table {
    /// Well-formedness: the keys of the entries are unique.
    pub open spec fn wf(&self) -> bool {
        forall|i: int, j: int|
            0 <= i < j < self.inner@.len() ==> self.inner@[i].0@ != self.inner@[j].0@
    }

    /// Create an empty table.
    pub fn new() -> (r: Table)
        ensures
            table_view(r.inner@) =~= Seq::<(Seq<char>, Value)>::empty(),
            r.wf(),
    {
        Table { inner: Vec::new() }
    }

    /// Look up the value stored under the given key, if any.
    pub fn get(&self, key: &String) -> (r: Option<&Object>)
        ensures
            match r {
                Some(o) => tblv_get(table_view(self.inner@), key@) == Some(obj_view(*o)),
                None => tblv_get(table_view(self.inner@), key@) is None,
            },
    {
        proof {
            lemma_table_view(self.inner@);
            assert(table_view(self.inner@).skip(0) =~= table_view(self.inner@));
        }
        let ghost sv = table_view(self.inner@);
        let mut i: usize = 0;
        while i < self.inner.len()
            invariant
                i <= self.inner@.len(),
                sv == table_view(self.inner@),
                sv.len() == self.inner@.len(),
                forall|k: int|
                    0 <= k < self.inner@.len() ==> sv[k] == (
                    self.inner@[k].0@,
                    obj_view(self.inner@[k].1),
                ),
                tblv_get(sv, key@) == tblv_get(sv.skip(i as int), key@),
            decreases self.inner@.len() - i,
        {
            proof {
                assert(sv.skip(i as int).len() > 0);
                assert(sv.skip(i as int)[0] == sv[i as int]);
                assert(sv.skip(i as int).drop_first() =~= sv.skip(i + 1));
            }
            let entry = &self.inner[i];
            if entry.0 == *key {
                return Some(&entry.1);
            }
            i = i + 1;
        }
        proof {
            assert(sv.skip(i as int) =~= Seq::<(Seq<char>, Value)>::empty());
        }
        None
    }

    /// Store a value under the given key, replacing any previous value.
    pub fn set(&mut self, key: String, value: Object)
        requires
            old(self).wf(),
        ensures
            final(self).wf(),
            table_view(final(self).inner@) == tblv_set(
                table_view(old(self).inner@),
                key@,
                obj_view(value),
            ),
    {
        proof {
            lemma_table_view(self.inner@);
        }
        let ghost sv = table_view(old(self).inner@);
        let mut i: usize = 0;
        while i < self.inner.len()
            invariant
                i <= self.inner@.len(),
                self.inner@ == old(self).inner@,
                old(self).wf(),
                sv == table_view(self.inner@),
                sv.len() == self.inner@.len(),
                forall|k: int|
                    0 <= k < self.inner@.len() ==> sv[k] == (
                    self.inner@[k].0@,
                    obj_view(self.inner@[k].1),
                ),
                forall|k: int| 0 <= k < i ==> self.inner@[k].0@ != key@,
            decreases self.inner@.len() - i,
        {
            let matched = self.inner[i].0 == key;
            if matched {
                proof {
                    assert(sv[i as int].0 == key@);
                    assert(forall|j: int| 0 <= j < i ==> sv[j].0 != key@);
                    lemma_tblv_set_update(sv, i as int, key@, obj_view(value));
                }
                self.inner.set(i, (key, value));
                proof {
                    lemma_table_view(self.inner@);
                    assert(table_view(self.inner@) =~= sv.update(
                        i as int,
                        (self.inner@[i as int].0@, obj_view(self.inner@[i as int].1)),
                    ));
                }
                return ;
            }
            i = i + 1;
        }
        proof {
            assert(forall|j: int| 0 <= j < sv.len() ==> sv[j].0 != key@);
            lemma_tblv_set_append(sv, key@, obj_view(value));
        }
        self.inner.push((key, value));
        proof {
            lemma_table_view(self.inner@);
            assert(table_view(self.inner@) =~= sv.push(
                (
                    self.inner@[self.inner@.len() - 1].0@,
                    obj_view(self.inner@[self.inner@.len() - 1].1),
                ),
            ));
        }
    }
}

} // verus!
