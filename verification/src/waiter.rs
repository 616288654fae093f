//! The per-state waiter table.
//!
//! An insertion-ordered map from state name to the queue of waiter ids that
//! are parked on that name.  The order of the keys is the order in which each
//! name received its first waiter since the last advance; the queue of a key
//! is in enqueue order.  Together they encode the fairness policy of the
//! lock: first-waited first-served across states, strict FIFO within one.

use vstd::prelude::*;

verus! {

/// The mathematical content of a [`WaiterTable`]: the key/queue pairs in
/// key order.
pub type TableView = Seq<(Seq<char>, Seq<u64>)>;

/// Whether `name` is a key of the table.
pub open spec fn table_has_key(t: TableView, name: Seq<char>) -> bool {
    exists|i: int| 0 <= i < t.len() && t[i].0 == name
}

/// The index of the key `name` in the table.
pub open spec fn table_key_index(t: TableView, name: Seq<char>) -> int {
    choose|i: int| 0 <= i < t.len() && t[i].0 == name
}

/// The queue of waiter ids parked on `name`; empty if `name` is no key.
pub open spec fn table_queue(t: TableView, name: Seq<char>) -> Seq<u64> {
    if table_has_key(t, name) {
        t[table_key_index(t, name)].1
    } else {
        Seq::empty()
    }
}

/// Whether the waiter id `id` is parked anywhere in the table.
pub open spec fn table_has_id(t: TableView, id: u64) -> bool {
    exists|i: int, p: int|
        0 <= i < t.len() && 0 <= p < t[i].1.len() && t[i].1[p] == id
}

/// The table after appending `id` to the queue of `name`: an existing key
/// keeps its position, a new key joins at the end of the key order.
pub open spec fn table_enqueue(t: TableView, name: Seq<char>, id: u64) -> TableView {
    if table_has_key(t, name) {
        t.update(table_key_index(t, name), (name, t[table_key_index(t, name)].1.push(id)))
    } else {
        t.push((name, seq![id]))
    }
}

/// The table after removing the key `name`, keeping the order of the other
/// keys; unchanged if `name` is no key.
pub open spec fn table_remove_key(t: TableView, name: Seq<char>) -> TableView {
    if table_has_key(t, name) {
        t.remove(table_key_index(t, name))
    } else {
        t
    }
}

/// Well-formedness of a table: keys are unique, every queue is non-empty,
/// and no waiter id is parked twice.
pub open spec fn table_wf(t: TableView) -> bool {
    &&& forall|i: int, j: int| 0 <= i < j < t.len() ==> t[i].0 != t[j].0
    &&& forall|i: int| 0 <= i < t.len() ==> #[trigger] t[i].1.len() > 0
    &&& forall|i: int, j: int, p: int, q: int|
        #![trigger t[i].1[p], t[j].1[q]]
        0 <= i < t.len() && 0 <= j < t.len() && 0 <= p < t[i].1.len() && 0 <= q < t[j].1.len()
            && (i != j || p != q) ==> t[i].1[p] != t[j].1[q]
}

struct WaiterGroup {
    name: String,
    ids: Vec<u64>,
}

/// The insertion-ordered map from state name to its queue of waiter ids.
pub struct WaiterTable {
    groups: Vec<WaiterGroup>,
}

impl View for WaiterTable {
    type V = TableView;

    closed spec fn view(&self) -> TableView {
        Seq::new(self.groups@.len(), |i: int| (self.groups@[i].name@, self.groups@[i].ids@))
    }
}

impl WaiterTable {
    /// The empty table.
    pub fn new() -> (r: WaiterTable)
        ensures
            r@ == Seq::<(Seq<char>, Seq<u64>)>::empty(),
    {
        let r = WaiterTable { groups: Vec::new() };
        proof {
            assert(r@ =~= Seq::<(Seq<char>, Seq<u64>)>::empty());
        }
        r
    }

    /// The number of keys.
    pub fn len(&self) -> (r: usize)
        ensures
            r == self@.len(),
    {
        self.groups.len()
    }

    /// Whether the table has no keys at all.
    pub fn is_empty(&self) -> (r: bool)
        ensures
            r == (self@.len() == 0),
    {
        self.groups.len() == 0
    }

    /// Whether `name` is a key.
    pub fn contains_key(&self, name: &str) -> (r: bool)
        ensures
            r == table_has_key(self@, name@),
    {
        match self.find_key(name) {
            Some(_) => true,
            None => {
                proof {
                    if table_has_key(self@, name@) {
                        let w = choose|w: int| 0 <= w < self@.len() && self@[w].0 == name@;
                        assert(self@[w].0 != name@);
                    }
                }
                false
            },
        }
    }

    /// Whether the waiter id `id` is parked anywhere.
    pub fn contains_id(&self, id: u64) -> (r: bool)
        ensures
            r == table_has_id(self@, id),
    {
        let count = self.groups.len();
        let mut i: usize = 0;
        while i < count
            invariant
                count == self.groups@.len(),
                count == self@.len(),
                i <= count,
                forall|w: int, p: int|
                    0 <= w < i && 0 <= p < self@[w].1.len() ==> self@[w].1[p] != id,
            decreases count - i,
        {
            let ids = &self.groups[i].ids;
            let id_count = ids.len();
            let mut p: usize = 0;
            while p < id_count
                invariant
                    id_count == ids@.len(),
                    p <= id_count,
                    ids@ == self@[i as int].1,
                    i < self@.len(),
                    forall|q: int| 0 <= q < p ==> self@[i as int].1[q] != id,
                decreases id_count - p,
            {
                if ids[p] == id {
                    assert(self@[i as int].1[p as int] == id);
                    return true;
                }
                p = p + 1;
            }
            i = i + 1;
        }
        proof {
            if table_has_id(self@, id) {
                let (w, q) = choose|w: int, q: int|
                    0 <= w < self@.len() && 0 <= q < self@[w].1.len() && self@[w].1[q] == id;
                assert(self@[w].1[q] != id);
            }
        }
        false
    }

    /// The index of the key `name`, if present.
    fn find_key(&self, name: &str) -> (r: Option<usize>)
        ensures
            match r {
                Some(i) => i < self@.len() && self@[i as int].0 == name@,
                None => forall|i: int| 0 <= i < self@.len() ==> self@[i].0 != name@,
            },
    {
        let count = self.groups.len();
        let mut i: usize = 0;
        while i < count
            invariant
                count == self.groups@.len(),
                count == self@.len(),
                i <= count,
                forall|j: int| 0 <= j < i ==> self@[j].0 != name@,
            decreases count - i,
        {
            if crate::order::str_eq(self.groups[i].name.as_str(), name) {
                assert(self@[i as int].0 == name@);
                return Some(i);
            }
            i = i + 1;
        }
        None
    }

    /// Append the waiter `id` to the queue of `name`; a new name joins at
    /// the end of the key order.
    pub fn enqueue(&mut self, name: &str, id: u64)
        requires
            table_wf(old(self)@),
            !table_has_id(old(self)@, id),
        ensures
            table_wf(final (self)@),
            final (self)@ == table_enqueue(old(self)@, name@, id),
    {
        let ghost t0 = self@;
        match self.find_key(name) {
            Some(i) => {
                let group = vstd::std_specs::vec::vec_index_mut(&mut self.groups, i);
                group.ids.push(id);
                proof {
                    let at = i as int;
                    assert(table_key_index(t0, name@) == at) by {
                        let w = table_key_index(t0, name@);
                        assert(0 <= w < t0.len() && t0[w].0 == name@);
                        if w != at {
                            assert(t0[w].0 != t0[at].0);
                        }
                    }
                    assert(self@ =~= t0.update(at, (name@, t0[at].1.push(id))));
                    lemma_table_wf_enqueue(t0, name@, id);
                }
            },
            None => {
                let mut ids: Vec<u64> = Vec::new();
                ids.push(id);
                self.groups.push(WaiterGroup { name: name.to_owned(), ids });
                proof {
                    assert(self@ =~= t0.push((name@, seq![id])));
                    lemma_table_wf_enqueue(t0, name@, id);
                }
            },
        }
    }

    /// Remove the entry keyed by `name`, returning its queue and keeping the
    /// order of the other keys.
    pub fn take(&mut self, name: &str) -> (r: Option<Vec<u64>>)
        requires
            table_wf(old(self)@),
        ensures
            table_wf(final (self)@),
            final (self)@ == table_remove_key(old(self)@, name@),
            table_has_key(old(self)@, name@) ==> (match r {
                Some(ids) => ids@ == table_queue(old(self)@, name@),
                None => false,
            }),
            !table_has_key(old(self)@, name@) ==> r is None,
    {
        let ghost t0 = self@;
        match self.find_key(name) {
            Some(i) => {
                let group = self.groups.remove(i);
                proof {
                    let at = i as int;
                    assert(table_key_index(t0, name@) == at) by {
                        let w = table_key_index(t0, name@);
                        assert(0 <= w < t0.len() && t0[w].0 == name@);
                        if w != at {
                            assert(t0[w].0 != t0[at].0);
                        }
                    }
                    assert(self@ =~= t0.remove(at));
                    lemma_table_wf_remove(t0, at);
                }
                Some(group.ids)
            },
            None => {
                proof {
                    if table_has_key(t0, name@) {
                        let w = choose|w: int| 0 <= w < t0.len() && t0[w].0 == name@;
                        assert(t0[w].0 != name@);
                    }
                }
                None
            },
        }
    }

    /// Remove the first entry in key order, returning its name and queue.
    pub fn take_front(&mut self) -> (r: Option<(String, Vec<u64>)>)
        requires
            table_wf(old(self)@),
        ensures
            table_wf(final (self)@),
            old(self)@.len() == 0 ==> r is None && final (self)@ == old(self)@,
            old(self)@.len() > 0 ==> (match r {
                Some(front) => front.0@ == old(self)@[0].0 && front.1@ == old(self)@[0].1
                    && final (self)@ == old(self)@.drop_first(),
                None => false,
            }),
    {
        let ghost t0 = self@;
        if self.groups.len() == 0 {
            return None;
        }
        let group = self.groups.remove(0);
        proof {
            assert(self@ =~= t0.remove(0));
            assert(t0.remove(0) =~= t0.drop_first());
            lemma_table_wf_remove(t0, 0);
        }
        Some((group.name, group.ids))
    }
}

/// Enqueuing a fresh waiter id keeps a table well-formed.
pub(crate) proof fn lemma_table_wf_enqueue(t: TableView, name: Seq<char>, id: u64)
    requires
        table_wf(t),
        !table_has_id(t, id),
    ensures
        table_wf(table_enqueue(t, name, id)),
{
    let t1 = table_enqueue(t, name, id);
    if table_has_key(t, name) {
        let at = table_key_index(t, name);
        assert(0 <= at < t.len() && t[at].0 == name);
        assert forall|w: int, j: int, p: int, q: int|
            #![trigger t1[w].1[p], t1[j].1[q]]
            0 <= w < t1.len() && 0 <= j < t1.len() && 0 <= p < t1[w].1.len() && 0 <= q
                < t1[j].1.len() && (w != j || p != q) implies t1[w].1[p] != t1[j].1[q] by {
            if t1[w].1[p] == id && (w != at || p != t[at].1.len()) {
                assert(t[w].1[p] == id);
            }
            if t1[j].1[q] == id && (j != at || q != t[at].1.len()) {
                assert(t[j].1[q] == id);
            }
        }
    } else {
        let at = t.len() as int;
        assert forall|w: int, j: int, p: int, q: int|
            #![trigger t1[w].1[p], t1[j].1[q]]
            0 <= w < t1.len() && 0 <= j < t1.len() && 0 <= p < t1[w].1.len() && 0 <= q
                < t1[j].1.len() && (w != j || p != q) implies t1[w].1[p] != t1[j].1[q] by {
            if w < at && t1[w].1[p] == id {
                assert(t[w].1[p] == id);
            }
            if j < at && t1[j].1[q] == id {
                assert(t[j].1[q] == id);
            }
        }
    }
}

/// Removing an entry keeps a table well-formed.
pub(crate) proof fn lemma_table_wf_remove(t: TableView, at: int)
    requires
        table_wf(t),
        0 <= at < t.len(),
    ensures
        table_wf(t.remove(at)),
{
    let r = t.remove(at);
    assert(r.len() == t.len() - 1);
    assert forall|k: int| 0 <= k < r.len() implies r[k] == t[if k < at {
        k
    } else {
        k + 1
    }] by {}
    assert forall|i: int, j: int| 0 <= i < j < r.len() implies r[i].0 != r[j].0 by {
        let i0 = if i < at { i } else { i + 1 };
        let j0 = if j < at { j } else { j + 1 };
        assert(t[i0].0 != t[j0].0);
    }
    assert forall|i: int| 0 <= i < r.len() implies #[trigger] r[i].1.len() > 0 by {
        let i0 = if i < at { i } else { i + 1 };
        assert(t[i0].1.len() > 0);
    }
    assert forall|i: int, j: int, p: int, q: int|
        #![trigger r[i].1[p], r[j].1[q]]
        0 <= i < r.len() && 0 <= j < r.len() && 0 <= p < r[i].1.len() && 0 <= q < r[j].1.len() && (
        i != j || p != q) implies r[i].1[p] != r[j].1[q] by {
        let i0 = if i < at { i } else { i + 1 };
        let j0 = if j < at { j } else { j + 1 };
        assert(t[i0].1[p] != t[j0].1[q]);
    }
}

} // verus!
