//! The todo store: an in-memory model of the `todos` table, with the five
//! operations of the service — list, create, get, update, delete — and the
//! laws that relate them.
//!
//! The store keeps its rows in insertion order; listing returns them in that
//! order, which callers must not rely on beyond it being some fixed order.
//! Besides the rows it remembers the latest timestamp it was handed, so that
//! every row can be shown to satisfy `created_at <= updated_at`: callers pass
//! the current time in, and time never runs backwards past the clock reading
//! the store has already seen.

use vstd::prelude::*;

use crate::ids::new_todo_id;
use crate::model::{merge_todo, merge_view, CreateTodo, CreateView, Todo, TodoError, TodoView,
    UpdateTodo, UpdateView};

verus! {

/// No two rows carry the same identifier.
pub open spec fn unique_ids(rows: Seq<TodoView>) -> bool {
    forall|i: int, j: int|
        #![trigger rows[i], rows[j]]
        0 <= i < j < rows.len() ==> rows[i].id != rows[j].id
}

/// Some row carries this identifier.
pub open spec fn has_id(rows: Seq<TodoView>, id: u128) -> bool {
    exists|i: int| 0 <= i < rows.len() && (#[trigger] rows[i]).id == id
}

/// The index of the row that carries this identifier; meaningful only when
/// [`has_id`] holds, and unique when [`unique_ids`] holds.
pub open spec fn row_index(rows: Seq<TodoView>, id: u128) -> int {
    choose|i: int| 0 <= i < rows.len() && (#[trigger] rows[i]).id == id
}

/// The row with this identifier, if any.
pub open spec fn spec_get(rows: Seq<TodoView>, id: u128) -> Option<TodoView> {
    if has_id(rows, id) {
        Some(rows[row_index(rows, id)])
    } else {
        None
    }
}

/// The record that a creation at time `now` persists: the fields of the
/// payload, a false completion flag, and both timestamps set to `now`.
pub open spec fn new_todo(id: u128, input: CreateView, now: u64) -> TodoView {
    TodoView {
        id: id,
        title: input.title,
        description: input.description,
        completed: false,
        created_at: now,
        updated_at: now,
    }
}

/// The rows after a creation: the new record appended at the end.
pub open spec fn spec_create(rows: Seq<TodoView>, id: u128, input: CreateView, now: u64) -> Seq<
    TodoView,
> {
    rows.push(new_todo(id, input, now))
}

/// The rows after an update of `id`: the matching row replaced by the merge
/// of the payload onto it; meaningful only when [`has_id`] holds.
pub open spec fn spec_update(rows: Seq<TodoView>, id: u128, u: UpdateView, now: u64) -> Seq<
    TodoView,
> {
    rows.update(row_index(rows, id), merge_view(rows[row_index(rows, id)], u, now))
}

/// The rows after a deletion of `id`: the matching row taken out, the others
/// shifted together; meaningful only when [`has_id`] holds.
pub open spec fn spec_delete(rows: Seq<TodoView>, id: u128) -> Seq<TodoView> {
    rows.remove(row_index(rows, id))
}

/// The in-memory table of todo records.
pub struct TodoStore {
    rows: Vec<Todo>,
    stamp: u64,
}

impl View for TodoStore {
    type V = Seq<TodoView>;

    closed spec fn view(&self) -> Seq<TodoView> {
        self.rows@.map_values(|t: Todo| t@)
    }
}

impl TodoStore {
    /// The latest timestamp the store has been handed; 0 for a fresh store.
    pub closed spec fn clock(self) -> u64 {
        self.stamp
    }

    /// Well-formedness: identifiers are unique, and every row was created no
    /// later than it was updated, no later than the store's clock reading.
    pub open spec fn wf(self) -> bool {
        &&& unique_ids(self@)
        &&& forall|i: int|
            0 <= i < self@.len() ==> (#[trigger] self@[i]).created_at <= self@[i].updated_at
                <= self.clock()
    }

    /// An empty store.
    pub fn new() -> (r: TodoStore)
        ensures
            r.wf(),
            r@ == Seq::<TodoView>::empty(),
            r.clock() == 0,
    {
        let r = TodoStore { rows: Vec::new(), stamp: 0 };
        proof {
            assert(r@ =~= Seq::<TodoView>::empty());
        }
        r
    }

    /// The latest timestamp the store has been handed, as [`Self::clock`]
    /// gives it: callers pass a current time no older than this reading.
    pub fn latest_stamp(&self) -> (r: u64)
        ensures
            r == self.clock(),
    {
        self.stamp
    }

    /// The index of the row carrying `id`, if any.
    fn find_index(&self, id: u128) -> (r: Option<usize>)
        requires
            self.wf(),
        ensures
            match r {
                Some(i) => has_id(self@, id) && row_index(self@, id) == i && i < self@.len()
                    && self@[i as int].id == id,
                None => !has_id(self@, id),
            },
    {
        let n = self.rows.len();
        let mut k: usize = 0;
        while k < n
            invariant
                n == self@.len(),
                k <= n,
                self.wf(),
                forall|j: int| 0 <= j < k ==> (#[trigger] self@[j]).id != id,
            decreases n - k,
        {
            if self.rows[k].id == id {
                proof {
                    assert(self@[k as int].id == id);
                    assert(has_id(self@, id));
                    let i = row_index(self@, id);
                    assert(0 <= i < self@.len() && self@[i].id == id);
                    assert(i == k);
                }
                return Some(k);
            }
            k += 1;
        }
        proof {
            assert forall|i: int| 0 <= i < self@.len() implies (#[trigger] self@[i]).id != id by {}
        }
        None
    }

    /// Every row of the table, in the store's own order, each equal to the
    /// stored one.
    pub fn list(&self) -> (r: Vec<Todo>)
        requires
            self.wf(),
        ensures
            r@.len() == self@.len(),
            forall|i: int| 0 <= i < r@.len() ==> (#[trigger] r@[i])@ == self@[i],
    {
        let n = self.rows.len();
        let mut out: Vec<Todo> = Vec::new();
        let mut k: usize = 0;
        while k < n
            invariant
                n == self@.len(),
                n == self.rows@.len(),
                k <= n,
                out@.len() == k,
                forall|i: int| 0 <= i < k ==> (#[trigger] out@[i])@ == self@[i],
            decreases n - k,
        {
            out.push(self.rows[k].duplicate());
            k += 1;
        }
        out
    }

    /// The row carrying `id`, or `None` when no row does. Reading never
    /// fails and never changes the store.
    pub fn get_by_id(&self, id: u128) -> (r: Option<Todo>)
        requires
            self.wf(),
        ensures
            match r {
                Some(t) => has_id(self@, id) && spec_get(self@, id) == Some(t@),
                None => !has_id(self@, id) && spec_get(self@, id) is None,
            },
    {
        match self.find_index(id) {
            Some(i) => Some(self.rows[i].duplicate()),
            None => None,
        }
    }

    /// Inserts a new record built from the payload, under the given
    /// identifier, with both timestamps set to `now`, and returns a copy of
    /// it. An identifier that is already taken is a store fault — the table
    /// guarantees uniqueness — and leaves the store unchanged.
    pub fn create(&mut self, id: u128, input: CreateTodo, now: u64) -> (r: Result<
        Todo,
        TodoError,
    >)
        requires
            old(self).wf(),
            now >= old(self).clock(),
        ensures
            final(self).wf(),
            r is Ok <==> !has_id(old(self)@, id),
            match r {
                Ok(t) => t@ == new_todo(id, input@, now) && final(self)@ == spec_create(
                    old(self)@,
                    id,
                    input@,
                    now,
                ) && final(self).clock() == now,
                Err(e) => e == TodoError::Store && *final(self) == *old(self),
            },
    {
        match self.find_index(id) {
            Some(_) => Err(TodoError::Store),
            None => {
                let row = Todo {
                    id: id,
                    title: input.title,
                    description: input.description,
                    completed: false,
                    created_at: now,
                    updated_at: now,
                };
                let copy = row.duplicate();
                self.rows.push(row);
                self.stamp = now;
                proof {
                    assert(self@ =~= old(self)@.push(copy@));
                    assert(copy@ == new_todo(id, input@, now));
                    assert forall|i: int, j: int|
                        #![trigger self@[i], self@[j]]
                        0 <= i < j < self@.len() implies self@[i].id != self@[j].id by {
                        if j < self@.len() - 1 {
                            assert(old(self)@[i].id != old(self)@[j].id);
                        } else {
                            assert(self@[j].id == id);
                            assert(old(self)@[i].id != id);
                        }
                    }
                }
                Ok(copy)
            },
        }
    }

    /// Inserts a new record under a freshly drawn random identifier. The
    /// draw decides the outcome: when it misses every identifier in use, the
    /// record is created exactly as by [`TodoStore::create`]; when it
    /// collides, the store reports a store fault and stays unchanged. A
    /// collision takes a stored identifier that itself carries the
    /// version-4 and variant bits every draw has, so on a store free of
    /// such identifiers — in particular an empty one — creation succeeds.
    pub fn create_fresh(&mut self, input: CreateTodo, now: u64) -> (r: Result<Todo, TodoError>)
        requires
            old(self).wf(),
            now >= old(self).clock(),
        ensures
            final(self).wf(),
            match r {
                Ok(t) => !has_id(old(self)@, t@.id) && t@ == new_todo(t@.id, input@, now)
                    && final(self)@ == spec_create(old(self)@, t@.id, input@, now)
                    && final(self).clock() == now,
                Err(e) => e == TodoError::Store && *final(self) == *old(self),
            },
            r is Err ==> exists|i: int|
                0 <= i < old(self)@.len() && (#[trigger] old(self)@[i]).id
                    & 0xF0000000000000000000 == 0x40000000000000000000 && old(self)@[i].id
                    & 0xC000000000000000 == 0x8000000000000000,
            old(self)@.len() == 0 ==> r is Ok,
    {
        let id = new_todo_id();
        let r = self.create(id, input, now);
        proof {
            if r is Err {
                let i = choose|i: int|
                    0 <= i < old(self)@.len() && (#[trigger] old(self)@[i]).id == id;
                assert(old(self)@[i].id == id);
            }
        }
        r
    }

    /// Merges the payload onto the row carrying `id` — fields the payload
    /// leaves out keep their stored value — refreshes its update time to
    /// `now`, and returns a copy of the merged row. When no row carries
    /// `id`, reports not found and leaves the store unchanged.
    pub fn update(&mut self, id: u128, input: &UpdateTodo, now: u64) -> (r: Result<
        Todo,
        TodoError,
    >)
        requires
            old(self).wf(),
            now >= old(self).clock(),
        ensures
            final(self).wf(),
            r is Ok <==> has_id(old(self)@, id),
            match r {
                Ok(t) => t@ == merge_view(
                    old(self)@[row_index(old(self)@, id)],
                    input@,
                    now,
                ) && final(self)@ == spec_update(old(self)@, id, input@, now)
                    && final(self).clock() == now,
                Err(e) => e == TodoError::NotFound && *final(self) == *old(self),
            },
    {
        match self.find_index(id) {
            None => Err(TodoError::NotFound),
            Some(i) => {
                let merged = merge_todo(&self.rows[i], input, now);
                let copy = merged.duplicate();
                self.rows.set(i, merged);
                self.stamp = now;
                proof {
                    let j = row_index(old(self)@, id);
                    assert(self@ =~= old(self)@.update(j, copy@));
                    assert forall|a: int, b: int|
                        #![trigger self@[a], self@[b]]
                        0 <= a < b < self@.len() implies self@[a].id != self@[b].id by {
                        assert(self@[a].id == old(self)@[a].id);
                        assert(self@[b].id == old(self)@[b].id);
                    }
                }
                Ok(copy)
            },
        }
    }

    /// Removes the row carrying `id`; afterwards no row carries it. When no
    /// row does in the first place, reports not found and leaves the store
    /// unchanged.
    pub fn delete(&mut self, id: u128) -> (r: Result<(), TodoError>)
        requires
            old(self).wf(),
        ensures
            final(self).wf(),
            r is Ok <==> has_id(old(self)@, id),
            match r {
                Ok(_) => final(self)@ == spec_delete(old(self)@, id) && !has_id(final(self)@, id)
                    && final(self).clock() == old(self).clock(),
                Err(e) => e == TodoError::NotFound && *final(self) == *old(self),
            },
    {
        match self.find_index(id) {
            None => Err(TodoError::NotFound),
            Some(i) => {
                self.rows.remove(i);
                proof {
                    let j = row_index(old(self)@, id);
                    assert(self@ =~= old(self)@.remove(j));
                    old(self)@.remove_ensures(j);
                    assert forall|k: int| 0 <= k < self@.len() implies (#[trigger] self@[k]).id
                        != id by {
                        if k < j {
                            assert(self@[k] == old(self)@[k]);
                        } else {
                            assert(self@[k] == old(self)@[k + 1]);
                        }
                    }
                    assert forall|a: int, b: int|
                        #![trigger self@[a], self@[b]]
                        0 <= a < b < self@.len() implies self@[a].id != self@[b].id by {
                        if b < j {
                            assert(self@[a] == old(self)@[a] && self@[b] == old(self)@[b]);
                        } else if a < j {
                            assert(self@[a] == old(self)@[a] && self@[b] == old(self)@[b + 1]);
                        } else {
                            assert(self@[a] == old(self)@[a + 1] && self@[b] == old(self)@[b + 1]);
                        }
                    }
                }
                Ok(())
            },
        }
    }
}

/// Creating a record and then reading it back by the identifier it was
/// given yields exactly the record created.
pub proof fn lemma_create_then_get(rows: Seq<TodoView>, id: u128, input: CreateView, now: u64)
    requires
        unique_ids(rows),
        !has_id(rows, id),
    ensures
        spec_get(spec_create(rows, id, input, now), id) == Some(new_todo(id, input, now)),
{
    let t = new_todo(id, input, now);
    let rows2 = spec_create(rows, id, input, now);
    assert(rows2[rows.len() as int] == t);
    assert(has_id(rows2, id));
    let j = row_index(rows2, id);
    assert(0 <= j < rows2.len() && rows2[j].id == id);
    if j < rows.len() {
        assert(rows[j] == rows2[j]);
        assert(has_id(rows, id));
        assert(false);
    }
}

/// Deleting an identifier and then reading it back yields nothing, whether
/// or not a row carried it: deletion of a present row removes it, and a
/// missing row leaves the store as it was, where the row was missing already.
pub proof fn lemma_delete_then_get(rows: Seq<TodoView>, id: u128)
    requires
        unique_ids(rows),
    ensures
        spec_get(if has_id(rows, id) { spec_delete(rows, id) } else { rows }, id) is None,
{
    if has_id(rows, id) {
        let j = row_index(rows, id);
        assert(0 <= j < rows.len() && rows[j].id == id);
        let rest = spec_delete(rows, id);
        rows.remove_ensures(j);
        assert forall|k: int| 0 <= k < rest.len() implies (#[trigger] rest[k]).id != id by {
            if k < j {
                assert(rest[k] == rows[k]);
            } else {
                assert(rest[k] == rows[k + 1]);
            }
        }
        assert(!has_id(rest, id));
    }
}

/// An update that sets no fields leaves the title, the description, the
/// completion flag and the creation time of its row unchanged, refreshes
/// only its update time, and touches no other row.
pub proof fn lemma_update_no_fields(rows: Seq<TodoView>, id: u128, u: UpdateView, now: u64)
    requires
        unique_ids(rows),
        has_id(rows, id),
        u.title is None,
        u.description is None,
        u.completed is None,
    ensures
        ({
            let j = row_index(rows, id);
            let after = spec_update(rows, id, u, now);
            &&& after.len() == rows.len()
            &&& after[j].id == rows[j].id
            &&& after[j].title == rows[j].title
            &&& after[j].description == rows[j].description
            &&& after[j].completed == rows[j].completed
            &&& after[j].created_at == rows[j].created_at
            &&& after[j].updated_at == now
            &&& forall|k: int| 0 <= k < rows.len() && k != j ==> #[trigger] after[k] == rows[k]
        }),
{
    let j = row_index(rows, id);
    assert(0 <= j < rows.len() && rows[j].id == id);
}

/// An update that sets only the completion flag changes only that flag and
/// the update time of its row: title, description and creation time stay,
/// and no other row is touched.
pub proof fn lemma_update_completed_only(
    rows: Seq<TodoView>,
    id: u128,
    u: UpdateView,
    c: bool,
    now: u64,
)
    requires
        unique_ids(rows),
        has_id(rows, id),
        u.title is None,
        u.description is None,
        u.completed == Some(c),
    ensures
        ({
            let j = row_index(rows, id);
            let after = spec_update(rows, id, u, now);
            &&& after.len() == rows.len()
            &&& after[j].id == rows[j].id
            &&& after[j].title == rows[j].title
            &&& after[j].description == rows[j].description
            &&& after[j].completed == c
            &&& after[j].created_at == rows[j].created_at
            &&& after[j].updated_at == now
            &&& forall|k: int| 0 <= k < rows.len() && k != j ==> #[trigger] after[k] == rows[k]
        }),
{
    let j = row_index(rows, id);
    assert(0 <= j < rows.len() && rows[j].id == id);
}

/// Reading an identifier that no row carries yields nothing — never a fault.
pub proof fn lemma_get_absent(rows: Seq<TodoView>, id: u128)
    requires
        !has_id(rows, id),
    ensures
        spec_get(rows, id) is None,
{
}

} // verus!
