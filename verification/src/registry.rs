//! An insertion-ordered table from names to values.
//!
//! No name occurs twice, an entry keeps its place when its value is
//! replaced, and a new name goes to the end. Walking the table therefore
//! gives the same order on every run.

use crate::text::same_text;
use vstd::prelude::*;

verus! {

/// One row of a [`Registry`].
pub struct Entry<V> {
    pub name: String,
    pub value: V,
}

/// Names mapped to values, in the order in which the names came.
pub struct Registry<V> {
    entries: Vec<Entry<V>>,
}

/// The names of `entries`, in order.
pub open spec fn entry_names<V>(entries: Seq<Entry<V>>) -> Seq<Seq<char>> {
    entries.map_values(|e: Entry<V>| e.name@)
}

impl<V> Registry<V> {
    /// The rows, in order.
    pub closed spec fn rows(&self) -> Seq<Entry<V>> {
        self.entries@
    }

    /// A table is well formed when no name occurs twice.
    pub open spec fn wf(&self) -> bool {
        self.names().no_duplicates()
    }

    /// The names, in order.
    pub open spec fn names(&self) -> Seq<Seq<char>> {
        entry_names(self.rows())
    }

    /// Whether `name` is in the table.
    pub open spec fn has(&self, name: Seq<char>) -> bool {
        self.names().contains(name)
    }

    /// The place of `name`, which is in the table.
    pub open spec fn place(&self, name: Seq<char>) -> int {
        self.names().index_of(name)
    }

    /// An empty table.
    pub fn new() -> (table: Self)
        ensures
            table.wf(),
            table.rows() == Seq::<Entry<V>>::empty(),
    {
        let entries: Vec<Entry<V>> = Vec::new();
        assert(entry_names(entries@) =~= Seq::<Seq<char>>::empty());
        Registry { entries }
    }

    /// Number of rows.
    pub fn len(&self) -> (n: usize)
        ensures
            n == self.rows().len(),
    {
        self.entries.len()
    }

    /// The name of row `i`.
    pub fn name_at(&self, i: usize) -> (name: &String)
        requires
            i < self.rows().len(),
        ensures
            *name == self.rows()[i as int].name,
    {
        &self.entries[i].name
    }

    /// The value of row `i`.
    pub fn value_at(&self, i: usize) -> (value: &V)
        requires
            i < self.rows().len(),
        ensures
            *value == self.rows()[i as int].value,
    {
        &self.entries[i].value
    }

    /// The row that holds `name`, if there is one.
    pub fn position(&self, name: &str) -> (at: Option<usize>)
        requires
            self.wf(),
        ensures
            match at {
                Some(i) => i < self.rows().len() && self.names()[i as int] == name@ && self.place(
                    name@,
                ) == i,
                None => !self.has(name@),
            },
    {
        let mut i: usize = 0;
        while i < self.entries.len()
            invariant
                i <= self.entries.len(),
                entry_names(self.entries@).no_duplicates(),
                forall|j: int| 0 <= j < i ==> entry_names(self.entries@)[j] != name@,
            decreases self.entries.len() - i,
        {
            if same_text(self.entries[i].name.as_str(), name) {
                proof {
                    let names = entry_names(self.entries@);
                    assert(names[i as int] == name@);
                    assert(names.contains(name@));
                    let k = names.index_of(name@);
                    assert(names[k] == name@);
                    assert(k == i);
                }
                return Some(i);
            }
            i += 1;
        }
        None
    }

    /// Replaces the value of row `i` and hands back the one it held.
    pub fn replace_at(&mut self, i: usize, value: V) -> (before: V)
        requires
            old(self).wf(),
            i < old(self).rows().len(),
        ensures
            final(self).wf(),
            before == old(self).rows()[i as int].value,
            final(self).rows() == old(self).rows().update(
                i as int,
                (Entry { name: old(self).rows()[i as int].name, value }),
            ),
            final(self).names() == old(self).names(),
    {
        let ghost names = entry_names(self.entries@);
        let mut slot = value;
        core::mem::swap(&mut self.entries[i].value, &mut slot);
        proof {
            assert(entry_names(self.entries@) =~= names);
            assert(self.entries@ =~= old(self).rows().update(
                i as int,
                (Entry { name: old(self).rows()[i as int].name, value }),
            ));
        }
        slot
    }

    /// Binds `name` to `value`. A name that is already in the table keeps
    /// its row and gives back the value it held; a new name gets a row at
    /// the end.
    pub fn insert(&mut self, name: String, value: V) -> (before: Option<V>)
        requires
            old(self).wf(),
        ensures
            final(self).wf(),
            old(self).has(name@) ==> {
                let i = old(self).place(name@);
                &&& before == Some(old(self).rows()[i].value)
                &&& final(self).rows() == old(self).rows().update(
                    i,
                    (Entry { name: old(self).rows()[i].name, value }),
                )
                &&& final(self).names() == old(self).names()
            },
            !old(self).has(name@) ==> {
                &&& before is None
                &&& final(self).rows() == old(self).rows().push((Entry { name, value }))
                &&& final(self).names() == old(self).names().push(name@)
            },
    {
        match self.position(name.as_str()) {
            Some(i) => Some(self.replace_at(i, value)),
            None => {
                let ghost names = entry_names(self.entries@);
                self.entries.push(Entry { name, value });
                proof {
                    assert(entry_names(self.entries@) =~= names.push(name@));
                    assert(names.push(name@).no_duplicates()) by {
                        assert forall|a: int, b: int|
                            0 <= a < names.len() + 1 && 0 <= b < names.len() + 1 && a != b implies names.push(
                            name@,
                        )[a] != names.push(name@)[b] by {
                            if a < names.len() && b < names.len() {
                            } else if a < names.len() {
                                assert(names.contains(names[a]));
                            } else {
                                assert(names.contains(names[b]));
                            }
                        }
                    }
                }
                None
            },
        }
    }

    /// Takes `name` out of the table. The rows behind it move up by one.
    pub fn remove(&mut self, name: &str) -> (before: Option<V>)
        requires
            old(self).wf(),
        ensures
            final(self).wf(),
            old(self).has(name@) ==> {
                let i = old(self).place(name@);
                &&& before == Some(old(self).rows()[i].value)
                &&& final(self).rows() == old(self).rows().remove(i)
                &&& final(self).names() == old(self).names().remove(i)
            },
            !old(self).has(name@) ==> before is None && final(self).rows() == old(self).rows(),
            !final(self).has(name@),
    {
        match self.position(name) {
            Some(i) => {
                let ghost names = entry_names(self.entries@);
                let entry = self.entries.remove(i);
                proof {
                    let after = entry_names(self.entries@);
                    assert(after =~= names.remove(i as int));
                    assert forall|a: int, b: int|
                        0 <= a < after.len() && 0 <= b < after.len() && a != b implies after[a]
                        != after[b] by {
                        let a0 = if a < i { a } else { a + 1 };
                        let b0 = if b < i { b } else { b + 1 };
                        assert(after[a] == names[a0]);
                        assert(after[b] == names[b0]);
                    }
                    assert(!after.contains(name@)) by {
                        if after.contains(name@) {
                            let k = after.index_of(name@);
                            let k0 = if k < i { k } else { k + 1 };
                            assert(after[k] == names[k0]);
                            assert(names[i as int] == name@);
                        }
                    }
                }
                Some(entry.value)
            },
            None => None,
        }
    }
}

} // verus!
