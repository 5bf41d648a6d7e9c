//! A table of resources behind integer handles. Handles are issued in
//! increasing order starting at one; zero is never a handle, and a handle is
//! never issued twice.
//!
//! The entries are kept in the order of their handles, so that walking the
//! table gives the same order in every process.

use vstd::prelude::*;

verus! {

/// The handles of a list of entries, in order.
pub open spec fn entry_ids<T>(entries: Seq<(u64, T)>) -> Seq<u64> {
    Seq::new(entries.len(), |i: int| entries[i].0)
}

/// Whether the handles of the entries increase strictly.
pub open spec fn ids_increase<T>(entries: Seq<(u64, T)>) -> bool {
    forall|i: int, j: int| 0 <= i < j < entries.len() ==> entries[i].0 < entries[j].0
}

/// The map that a list of entries with increasing handles stands for.
pub open spec fn table_map<T>(entries: Seq<(u64, T)>) -> Map<u64, T> {
    Map::new(
        |id: u64| exists|i: int| 0 <= i < entries.len() && entries[i].0 == id,
        |id: u64| entries[choose|i: int| 0 <= i < entries.len() && entries[i].0 == id].1,
    )
}

/// With increasing handles, each entry is found under its own handle, and the
/// map has as many handles as there are entries.
pub proof fn lemma_table_map<T>(entries: Seq<(u64, T)>)
    requires
        ids_increase(entries),
    ensures
        table_map(entries).dom().finite(),
        table_map(entries).dom().len() == entries.len(),
        forall|i: int|
            0 <= i < entries.len() ==> table_map(entries).contains_key(#[trigger] entries[i].0)
                && table_map(entries)[entries[i].0] == entries[i].1,
    decreases entries.len(),
{
    assert forall|i: int| 0 <= i < entries.len() implies table_map(entries).contains_key(
        #[trigger] entries[i].0,
    ) && table_map(entries)[entries[i].0] == entries[i].1 by {
        let id = entries[i].0;
        let w = choose|k: int| 0 <= k < entries.len() && entries[k].0 == id;
        if w < i {
            assert(entries[w].0 < entries[i].0);
        } else if i < w {
            assert(entries[i].0 < entries[w].0);
        }
    }
    if entries.len() == 0 {
        assert(table_map(entries).dom() =~= Set::<u64>::empty());
    } else {
        let shorter = entries.drop_last();
        let last = entries.last();
        assert(ids_increase(shorter)) by {
            assert forall|i: int, j: int| 0 <= i < j < shorter.len() implies shorter[i].0
                < shorter[j].0 by {
                assert(shorter[i] == entries[i]);
                assert(shorter[j] == entries[j]);
            }
        }
        lemma_table_map(shorter);
        assert(!table_map(shorter).contains_key(last.0)) by {
            if table_map(shorter).contains_key(last.0) {
                let w = choose|k: int| 0 <= k < shorter.len() && shorter[k].0 == last.0;
                assert(shorter[w] == entries[w]);
                assert(entries[w].0 < entries[entries.len() - 1].0);
            }
        }
        assert(table_map(entries).dom() =~= table_map(shorter).dom().insert(last.0)) by {
            assert forall|id: u64| table_map(entries).contains_key(id) <==> (table_map(
                shorter,
            ).contains_key(id) || id == last.0) by {
                if table_map(entries).contains_key(id) {
                    let w = choose|k: int| 0 <= k < entries.len() && entries[k].0 == id;
                    if w < shorter.len() {
                        assert(shorter[w] == entries[w]);
                    }
                }
                if table_map(shorter).contains_key(id) {
                    let w = choose|k: int| 0 <= k < shorter.len() && shorter[k].0 == id;
                    assert(shorter[w] == entries[w]);
                }
                if id == last.0 {
                    assert(entries[entries.len() - 1].0 == id);
                }
            }
        }
    }
}

/// Taking the entry at `i` out of the list removes its handle from the map.
pub proof fn lemma_table_map_remove<T>(before: Seq<(u64, T)>, i: int)
    requires
        ids_increase(before),
        0 <= i < before.len(),
    ensures
        ids_increase(before.remove(i)),
        table_map(before.remove(i)) == table_map(before).remove(before[i].0),
        table_map(before)[before[i].0] == before[i].1,
{
    let after = before.remove(i);
    let id = before[i].0;
    assert forall|k: int| 0 <= k < after.len() implies (#[trigger] after[k]) == before[if k < i {
        k
    } else {
        k + 1
    }] by {}
    assert(ids_increase(after)) by {
        assert forall|a: int, b: int| 0 <= a < b < after.len() implies after[a].0 < after[b].0 by {
            let a0 = if a < i { a } else { a + 1 };
            let b0 = if b < i { b } else { b + 1 };
            assert(after[a] == before[a0]);
            assert(after[b] == before[b0]);
        }
    }
    lemma_table_map(before);
    lemma_table_map(after);
    assert forall|x: u64| table_map(after).contains_key(x) <==> (table_map(before).contains_key(x)
        && x != id) by {
        if table_map(after).contains_key(x) {
            let w = choose|k: int| 0 <= k < after.len() && after[k].0 == x;
            let w0 = if w < i { w } else { w + 1 };
            assert(after[w] == before[w0]);
            if w0 < i {
                assert(before[w0].0 < before[i].0);
            } else {
                assert(before[i].0 < before[w0].0);
            }
        }
        if table_map(before).contains_key(x) && x != id {
            let w = choose|k: int| 0 <= k < before.len() && before[k].0 == x;
            let w1 = if w < i { w } else { w - 1 };
            assert(after[w1] == before[w]);
        }
    }
    assert forall|x: u64| table_map(after).contains_key(x) implies table_map(after)[x]
        == table_map(before).remove(id)[x] by {
        let w = choose|k: int| 0 <= k < after.len() && after[k].0 == x;
        let w0 = if w < i { w } else { w + 1 };
        assert(after[w] == before[w0]);
        assert(table_map(after)[after[w].0] == after[w].1);
        assert(table_map(before)[before[w0].0] == before[w0].1);
    }
    assert(table_map(after) =~= table_map(before).remove(id));
}

/// Putting an entry into the list at the place that keeps the handles
/// increasing adds its handle to the map.
pub proof fn lemma_table_map_insert<T>(before: Seq<(u64, T)>, p: int, id: u64, value: T)
    requires
        ids_increase(before),
        0 <= p <= before.len(),
        forall|k: int| 0 <= k < p ==> before[k].0 < id,
        forall|k: int| p <= k < before.len() ==> before[k].0 > id,
    ensures
        ids_increase(before.insert(p, (id, value))),
        table_map(before.insert(p, (id, value))) == table_map(before).insert(id, value),
{
    let after = before.insert(p, (id, value));
    assert forall|k: int| 0 <= k < after.len() implies (#[trigger] after[k]) == (if k < p {
        before[k]
    } else if k == p {
        (id, value)
    } else {
        before[k - 1]
    }) by {}
    assert(ids_increase(after)) by {
        assert forall|a: int, b: int| 0 <= a < b < after.len() implies after[a].0 < after[b].0 by {
            if a < p {
                assert(after[a] == before[a]);
            } else if a > p {
                assert(after[a] == before[a - 1]);
            }
            if b < p {
                assert(after[b] == before[b]);
            } else if b > p {
                assert(after[b] == before[b - 1]);
            }
        }
    }
    lemma_table_map(before);
    lemma_table_map(after);
    assert forall|x: u64| table_map(after).contains_key(x) <==> (table_map(before).contains_key(x)
        || x == id) by {
        if table_map(after).contains_key(x) {
            let w = choose|k: int| 0 <= k < after.len() && after[k].0 == x;
            if w < p {
                assert(after[w] == before[w]);
            } else if w > p {
                assert(after[w] == before[w - 1]);
            }
        }
        if table_map(before).contains_key(x) {
            let w = choose|k: int| 0 <= k < before.len() && before[k].0 == x;
            let w1 = if w < p { w } else { w + 1 };
            assert(after[w1] == before[w]);
        }
        if x == id {
            assert(after[p].0 == x);
        }
    }
    assert forall|x: u64| table_map(after).contains_key(x) implies table_map(after)[x]
        == table_map(before).insert(id, value)[x] by {
        let w = choose|k: int| 0 <= k < after.len() && after[k].0 == x;
        assert(table_map(after)[after[w].0] == after[w].1);
        if w < p {
            assert(after[w] == before[w]);
            assert(table_map(before)[before[w].0] == before[w].1);
        } else if w > p {
            assert(after[w] == before[w - 1]);
            assert(table_map(before)[before[w - 1].0] == before[w - 1].1);
        }
    }
    assert(table_map(after) =~= table_map(before).insert(id, value));
}

/// A table of resources behind handles.
#[derive(Debug)]
pub struct HandleTable<T> {
    entries: Vec<(u64, T)>,
    next_id: u64,
}

impl<T> View for HandleTable<T> {
    type V = Map<u64, T>;

    closed spec fn view(&self) -> Map<u64, T> {
        table_map(self.entries@)
    }
}

/// Position of the entry with handle `id`, if there is one.
fn index_of<T>(entries: &Vec<(u64, T)>, id: u64) -> (r: Option<usize>)
    ensures
        match r {
            Some(i) => i < entries.len() && entries@[i as int].0 == id,
            None => forall|k: int| 0 <= k < entries.len() ==> entries@[k].0 != id,
        },
{
    let mut i: usize = 0;
    while i < entries.len()
        invariant
            i <= entries.len(),
            forall|k: int| 0 <= k < i ==> entries@[k].0 != id,
        decreases entries.len() - i,
    {
        if entries[i].0 == id {
            return Some(i);
        }
        i += 1;
    }
    None
}

impl<T> HandleTable<T> {
    #[verifier::type_invariant]
    spec fn well_formed(self) -> bool {
        &&& self.next_id >= 1
        &&& ids_increase(self.entries@)
        &&& forall|i: int|
            0 <= i < self.entries.len() ==> 1 <= (#[trigger] self.entries@[i]).0 < self.next_id
    }

    /// The handle that the next resource gets.
    pub closed spec fn next_id(&self) -> u64 {
        self.next_id
    }

    /// Whether the table is as it should be: finitely many handles, none of
    /// them zero, all of them issued before.
    pub open spec fn handles_valid(&self) -> bool {
        &&& self@.dom().finite()
        &&& self.next_id() >= 1
        &&& forall|id: u64| self@.contains_key(id) ==> 1 <= id < self.next_id()
    }

    proof fn lemma_valid(&self)
        requires
            self.well_formed(),
        ensures
            self.handles_valid(),
            self@.dom().len() == self.entries.len(),
    {
        lemma_table_map(self.entries@);
        assert forall|id: u64| self@.contains_key(id) implies 1 <= id < self.next_id() by {
            let w = choose|k: int| 0 <= k < self.entries.len() && self.entries@[k].0 == id;
            assert(1 <= self.entries@[w].0 < self.next_id);
        }
    }

    /// The empty table. Its first handle will be one.
    pub fn new() -> (t: HandleTable<T>)
        ensures
            t@ == Map::<u64, T>::empty(),
            t.next_id() == 1,
            t.handles_valid(),
    {
        let t = HandleTable { entries: Vec::new(), next_id: 1 };
        assert(t@ =~= Map::<u64, T>::empty());
        t
    }

    /// Number of resources in the table.
    pub fn len(&self) -> (n: usize)
        ensures
            self.handles_valid(),
            n == self@.dom().len(),
    {
        proof {
            use_type_invariant(self);
            self.lemma_valid();
        }
        self.entries.len()
    }

    /// The resource behind `id`, if there is one.
    pub fn get(&self, id: u64) -> (r: Option<&T>)
        ensures
            self.handles_valid(),
            match r {
                Some(v) => self@.contains_key(id) && self@[id] == *v,
                None => !self@.contains_key(id),
            },
    {
        proof {
            use_type_invariant(self);
            self.lemma_valid();
            lemma_table_map(self.entries@);
        }
        match index_of(&self.entries, id) {
            Some(i) => Some(&self.entries[i].1),
            None => None,
        }
    }

    /// Whether there is a resource behind `id`.
    pub fn contains(&self, id: u64) -> (r: bool)
        ensures
            self.handles_valid(),
            r == self@.contains_key(id),
    {
        self.get(id).is_some()
    }

    /// The handles in the table, in the order in which they were issued.
    pub fn ids(&self) -> (r: Vec<u64>)
        ensures
            self.handles_valid(),
            r@.len() == self@.dom().len(),
            forall|i: int| 0 <= i < r.len() ==> self@.contains_key(#[trigger] r[i]),
            forall|id: u64| self@.contains_key(id) ==> r@.contains(id),
            forall|i: int, j: int| 0 <= i < j < r.len() ==> r[i] < r[j],
    {
        proof {
            use_type_invariant(self);
            self.lemma_valid();
            lemma_table_map(self.entries@);
        }
        let mut r: Vec<u64> = Vec::new();
        let mut i: usize = 0;
        while i < self.entries.len()
            invariant
                i <= self.entries.len(),
                r.len() == i,
                forall|k: int| 0 <= k < i ==> r[k] == self.entries@[k].0,
            decreases self.entries.len() - i,
        {
            r.push(self.entries[i].0);
            i += 1;
        }
        proof {
            assert forall|id: u64| self@.contains_key(id) implies r@.contains(id) by {
                let w = choose|k: int| 0 <= k < self.entries.len() && self.entries@[k].0 == id;
                assert(r@[w] == id);
            }
        }
        r
    }

    /// Puts a resource into the table and returns its new handle. When all
    /// handles are used up the resource is dropped and zero is returned.
    pub fn insert(&mut self, value: T) -> (id: u64)
        ensures
            final(self).handles_valid(),
            old(self).next_id() < u64::MAX ==> id == old(self).next_id() && final(self).next_id()
                == id + 1 && final(self)@ == old(self)@.insert(id, value),
            old(self).next_id() == u64::MAX ==> id == 0 && final(self).next_id() == old(
                self,
            ).next_id() && final(self)@ == old(self)@,
            !old(self)@.contains_key(old(self).next_id()),
    {
        proof {
            use_type_invariant(&*self);
            self.lemma_valid();
        }
        if self.next_id == u64::MAX {
            return 0;
        }
        let id = self.next_id;
        let ghost before = self.entries@;
        let mut entries: Vec<(u64, T)> = Vec::new();
        core::mem::swap(&mut self.entries, &mut entries);
        entries.push((id, value));
        self.next_id = id + 1;
        proof {
            assert forall|k: int| 0 <= k < before.len() implies before[k].0 < id by {
                assert(1 <= before[k].0 < id);
            }
            lemma_table_map_insert(before, before.len() as int, id, value);
            assert(entries@ =~= before.insert(before.len() as int, (id, value)));
            assert forall|i: int| 0 <= i < entries.len() implies 1 <= (#[trigger] entries@[i]).0
                < id + 1 by {
                if i < before.len() {
                    assert(entries@[i] == before[i]);
                }
            }
        }
        core::mem::swap(&mut self.entries, &mut entries);
        proof {
            self.lemma_valid();
        }
        id
    }

    /// Takes the resource behind `id` out of the table, if there is one.
    pub fn remove(&mut self, id: u64) -> (r: Option<T>)
        ensures
            final(self).handles_valid(),
            final(self).next_id() == old(self).next_id(),
            match r {
                Some(v) => old(self)@.contains_key(id) && old(self)@[id] == v && final(self)@
                    == old(self)@.remove(id),
                None => !old(self)@.contains_key(id) && final(self)@ == old(self)@,
            },
    {
        proof {
            use_type_invariant(&*self);
            self.lemma_valid();
            lemma_table_map(self.entries@);
        }
        let ghost before = self.entries@;
        match index_of(&self.entries, id) {
            Some(i) => {
                let mut entries: Vec<(u64, T)> = Vec::new();
                core::mem::swap(&mut self.entries, &mut entries);
                let removed = entries.remove(i);
                proof {
                    lemma_table_map_remove(before, i as int);
                    assert forall|k: int| 0 <= k < entries.len() implies 1 <= (
                    #[trigger] entries@[k]).0 < self.next_id by {
                        let k0 = if k < i { k } else { k + 1 };
                        assert(entries@[k] == before[k0]);
                    }
                }
                core::mem::swap(&mut self.entries, &mut entries);
                proof {
                    self.lemma_valid();
                }
                Some(removed.1)
            },
            None => {
                proof {
                    if self@.contains_key(id) {
                        let w = choose|k: int| 0 <= k < before.len() && before[k].0 == id;
                        assert(before[w].0 != id);
                    }
                }
                None
            },
        }
    }

    /// Puts a resource back behind the handle under which it was taken out.
    /// Where `id` was never issued, or is in use, nothing changes and the
    /// resource is handed back.
    pub fn restore(&mut self, id: u64, value: T) -> (r: Option<T>)
        ensures
            final(self).handles_valid(),
            final(self).next_id() == old(self).next_id(),
            if 1 <= id < old(self).next_id() && !old(self)@.contains_key(id) {
                r is None && final(self)@ == old(self)@.insert(id, value)
            } else {
                r == Some(value) && final(self)@ == old(self)@
            },
    {
        proof {
            use_type_invariant(&*self);
            self.lemma_valid();
            lemma_table_map(self.entries@);
        }
        if id < 1 || id >= self.next_id {
            return Some(value);
        }
        let ghost before = self.entries@;
        let mut p: usize = 0;
        while p < self.entries.len() && self.entries[p].0 < id
            invariant
                p <= self.entries.len(),
                forall|k: int| 0 <= k < p ==> self.entries@[k].0 < id,
            decreases self.entries.len() - p,
        {
            p += 1;
        }
        if p < self.entries.len() && self.entries[p].0 == id {
            return Some(value);
        }
        proof {
            assert forall|k: int| p <= k < before.len() implies before[k].0 > id by {
                if k > p {
                    assert(before[p as int].0 < before[k].0);
                }
            }
            if self@.contains_key(id) {
                let w = choose|k: int| 0 <= k < before.len() && before[k].0 == id;
                if w < p {
                    assert(before[w].0 < id);
                } else {
                    assert(before[w].0 > id);
                }
            }
        }
        let mut entries: Vec<(u64, T)> = Vec::new();
        core::mem::swap(&mut self.entries, &mut entries);
        entries.insert(p, (id, value));
        proof {
            lemma_table_map_insert(before, p as int, id, value);
            assert forall|k: int| 0 <= k < entries.len() implies 1 <= (#[trigger] entries@[k]).0
                < self.next_id by {
                if k < p {
                    assert(entries@[k] == before[k]);
                } else if k > p {
                    assert(entries@[k] == before[k - 1]);
                }
            }
        }
        core::mem::swap(&mut self.entries, &mut entries);
        proof {
            self.lemma_valid();
        }
        None
    }

    /// Empties the table. Handles issued before are not issued again.
    pub fn clear(&mut self)
        ensures
            final(self).handles_valid(),
            final(self)@ == Map::<u64, T>::empty(),
            final(self).next_id() == old(self).next_id(),
    {
        proof {
            use_type_invariant(&*self);
        }
        let mut entries: Vec<(u64, T)> = Vec::new();
        core::mem::swap(&mut self.entries, &mut entries);
        proof {
            assert(self@ =~= Map::<u64, T>::empty());
            self.lemma_valid();
        }
    }
}

} // verus!
