use vstd::prelude::*;

use crate::todo::Todo;

verus! {

/// Why a statement against the table failed.
#[derive(PartialEq, Eq, Structural, Clone, Copy, Debug)]
pub enum StoreError {
    /// No row has the id that the statement names.
    NotFound,
    /// A row's text must not be empty.
    EmptyText,
    /// The id sequence has handed out its largest value.
    IdsExhausted,
    /// The backing store could not run the statement.
    Backend,
}

impl StoreError {
    /// The HTTP status that a handler answers with for this failure.
    pub fn status_code(&self) -> (r: u16)
        ensures
            *self == StoreError::NotFound ==> r == 404,
            *self == StoreError::EmptyText ==> r == 400,
            *self == StoreError::IdsExhausted ==> r == 500,
            *self == StoreError::Backend ==> r == 500,
    {
        match self {
            StoreError::NotFound => 404,
            StoreError::EmptyText => 400,
            StoreError::IdsExhausted => 500,
            StoreError::Backend => 500,
        }
    }
}

/// Accepts the text of a new row when it is not empty.
pub fn check_text(text: &str) -> (r: Result<(), StoreError>)
    ensures
        r is Ok <==> text@.len() > 0,
        r is Err ==> r == Err::<(), StoreError>(StoreError::EmptyText),
{
    if text.unicode_len() == 0 {
        Err(StoreError::EmptyText)
    } else {
        Ok(())
    }
}

/// The id that the table's sequence hands out first.
pub const FIRST_ID: i32 = 1;

/// The table as a sequence of rows and the next value of its id sequence.
pub struct TableView {
    pub rows: Seq<Todo>,
    pub next_id: int,
}

impl TableView {
    /// Ids strictly increase along the rows, each was handed out by the
    /// sequence before, and no text is empty.
    pub open spec fn wf(self) -> bool {
        &&& FIRST_ID <= self.next_id <= i32::MAX + 1
        &&& forall|i: int, j: int|
            0 <= i < j < self.rows.len() ==> #[trigger] self.rows[i].id < #[trigger] self.rows[j].id
        &&& forall|i: int|
            0 <= i < self.rows.len() ==> FIRST_ID <= #[trigger] self.rows[i].id < self.next_id
        &&& forall|i: int| 0 <= i < self.rows.len() ==> (#[trigger] self.rows[i]).text@.len() > 0
    }

    /// Some row has this id.
    pub open spec fn has_id(self, id: int) -> bool {
        exists|i: int| 0 <= i < self.rows.len() && #[trigger] self.rows[i].id == id
    }

    /// `after` is `self` with `t` inserted from `text`.
    pub open spec fn created(self, text: Seq<char>, after: TableView, t: Todo) -> bool {
        &&& t.id == self.next_id
        &&& t.text@ == text
        &&& !t.completed
        &&& after.rows == self.rows.push(t)
        &&& after.next_id == self.next_id + 1
    }

    /// `after` is `self` with the row at `i`, whose id is `id`, flipped;
    /// `t` is that row after the flip.
    pub open spec fn toggled_at(self, id: int, i: int, after: TableView, t: Todo) -> bool {
        &&& 0 <= i < self.rows.len()
        &&& self.rows[i].id == id
        &&& t.id == self.rows[i].id
        &&& t.text == self.rows[i].text
        &&& t.completed == !self.rows[i].completed
        &&& after.rows == self.rows.update(i, t)
        &&& after.next_id == self.next_id
    }

    /// `after` is `self` with the row whose id is `id` flipped, `t` being
    /// that row after the flip.
    pub open spec fn toggled(self, id: int, after: TableView, t: Todo) -> bool {
        exists|i: int| self.toggled_at(id, i, after, t)
    }

    /// `after` is `self` without the rows whose id is `id`.
    pub open spec fn deleted(self, id: int, after: TableView) -> bool {
        &&& after.rows == self.rows.filter(id_other_than(id))
        &&& after.next_id == self.next_id
    }
}

/// Holds of the rows whose id is not `id`.
pub open spec fn id_other_than(id: int) -> spec_fn(Todo) -> bool {
    |t: Todo| t.id != id
}

/// Filtering out an id that no row has keeps every row.
proof fn lemma_filter_out_absent(rows: Seq<Todo>, id: int)
    requires
        forall|k: int| 0 <= k < rows.len() ==> #[trigger] rows[k].id != id,
    ensures
        rows.filter(id_other_than(id)) == rows,
    decreases rows.len(),
{
    reveal_with_fuel(Seq::filter, 1);
    if rows.len() > 0 {
        let init = rows.drop_last();
        assert forall|k: int| 0 <= k < init.len() implies #[trigger] init[k].id != id by {
            assert(init[k] == rows[k]);
        }
        lemma_filter_out_absent(init, id);
        assert(init.push(rows.last()) =~= rows);
    }
}

/// Filtering out the id of the row at `i` removes that row alone.
proof fn lemma_filter_out_unique(table: TableView, id: int, i: int)
    requires
        table.wf(),
        0 <= i < table.rows.len(),
        table.rows[i].id == id,
    ensures
        table.rows.filter(id_other_than(id)) == table.rows.remove(i),
{
    let rows = table.rows;
    let front = rows.take(i);
    let back = rows.skip(i + 1);
    let one = seq![rows[i]];
    assert(rows =~= front + one + back);
    assert forall|k: int| 0 <= k < front.len() implies #[trigger] front[k].id != id by {
        assert(front[k] == rows[k]);
    }
    assert forall|k: int| 0 <= k < back.len() implies #[trigger] back[k].id != id by {
        assert(back[k] == rows[i + 1 + k]);
    }
    lemma_filter_out_absent(front, id);
    lemma_filter_out_absent(back, id);
    reveal_with_fuel(Seq::filter, 2);
    assert(one.drop_last() =~= Seq::<Todo>::empty());
    assert(one.filter(id_other_than(id)) =~= Seq::<Todo>::empty());
    Seq::filter_distributes_over_add(front + one, back, id_other_than(id));
    Seq::filter_distributes_over_add(front, one, id_other_than(id));
    assert(rows.remove(i) =~= front + back);
}

/// A row created from non-empty text is not completed, has an id that no
/// earlier row has, and is among the rows listed afterwards; the table stays
/// well formed.
pub proof fn law_create_fresh_and_listed(before: TableView, text: Seq<char>, after: TableView, t: Todo)
    requires
        before.wf(),
        text.len() > 0,
        before.next_id <= i32::MAX,
        before.created(text, after, t),
    ensures
        !t.completed,
        !before.has_id(t.id as int),
        after.has_id(t.id as int),
        after.rows.contains(t),
        after.wf(),
{
    let n = before.rows.len();
    assert(after.rows[n as int] == t);
    assert forall|i: int| 0 <= i < n implies #[trigger] after.rows[i] == before.rows[i] by {}
}

/// Toggling the same id twice gives back the row as it was before the first
/// toggle, and the table as it was.
pub proof fn law_toggle_twice(
    s0: TableView,
    id: int,
    s1: TableView,
    t1: Todo,
    s2: TableView,
    t2: Todo,
)
    requires
        s0.wf(),
        s0.toggled(id, s1, t1),
        s1.toggled(id, s2, t2),
    ensures
        forall|i: int| 0 <= i < s0.rows.len() && s0.rows[i].id == id ==> #[trigger] s0.rows[i] == t2,
        t2.completed == !t1.completed,
        s2 == s0,
{
    let i = choose|i: int| s0.toggled_at(id, i, s1, t1);
    let j = choose|j: int| s1.toggled_at(id, j, s2, t2);
    if i != j {
        assert(s1.rows[j] == s0.rows[j]);
        if i < j {
            assert(s0.rows[i].id < s0.rows[j].id);
        } else {
            assert(s0.rows[j].id < s0.rows[i].id);
        }
    }
    assert forall|k: int| 0 <= k < s0.rows.len() && s0.rows[k].id == id implies #[trigger] s0.rows[k]
        == t2 by {
        if k != i {
            if k < i {
                assert(s0.rows[k].id < s0.rows[i].id);
            } else {
                assert(s0.rows[i].id < s0.rows[k].id);
            }
        }
    }
    assert(s2.rows =~= s0.rows);
}

/// After a delete no row has the id; deleting an id that no row has leaves
/// the table as it was.
pub proof fn law_delete_removes(before: TableView, id: int, after: TableView)
    requires
        before.wf(),
        before.deleted(id, after),
    ensures
        !after.has_id(id),
        !before.has_id(id) ==> after == before,
{
    assert forall|k: int| 0 <= k < after.rows.len() implies #[trigger] after.rows[k].id != id by {
        before.rows.lemma_filter_pred(id_other_than(id), k);
    }
    if !before.has_id(id) {
        assert forall|k: int| 0 <= k < before.rows.len() implies #[trigger] before.rows[k].id
            != id by {
            if before.rows[k].id == id {
                assert(before.has_id(id));
            }
        }
        lemma_filter_out_absent(before.rows, id);
    }
}

/// The rows of a well-formed table, which is what every operation keeps,
/// come in ascending id order.
pub proof fn law_rows_in_id_order(s: TableView)
    requires
        s.wf(),
    ensures
        forall|i: int, j: int| 0 <= i <= j < s.rows.len() ==> #[trigger] s.rows[i].id <= #[trigger] s.rows[j].id,
{
    assert forall|i: int, j: int| 0 <= i <= j < s.rows.len() implies #[trigger] s.rows[i].id <= #[trigger] s.rows[j].id by {
        if i < j {
            assert(s.rows[i].id < s.rows[j].id);
        }
    }
}

/// An in-memory `todos` table: rows in ascending id order and the sequence
/// that assigns ids, which never hands out a value twice.
pub struct TodoTable {
    rows: Vec<Todo>,
    next_id: i64,
}

impl View for TodoTable {
    type V = TableView;

    closed spec fn view(&self) -> TableView {
        TableView {
            rows: self.rows@,
            next_id: self.next_id as int,
        }
    }
}

impl TodoTable {
    /// The table's invariant.
    pub open spec fn wf(&self) -> bool {
        self@.wf()
    }

    /// An empty table whose sequence starts at the first id.
    pub fn new() -> (r: TodoTable)
        ensures
            r.wf(),
            r@.rows.len() == 0,
            r@.next_id == FIRST_ID,
    {
        TodoTable { rows: Vec::new(), next_id: FIRST_ID as i64 }
    }

    /// Every row, in ascending id order.
    pub fn list_all(&self) -> (r: Vec<Todo>)
        requires
            self.wf(),
        ensures
            r@ == self@.rows,
    {
        let mut out: Vec<Todo> = Vec::new();
        let mut i: usize = 0;
        while i < self.rows.len()
            invariant
                i <= self.rows@.len(),
                out@ == self.rows@.take(i as int),
            decreases self.rows@.len() - i,
        {
            out.push(self.rows[i].clone());
            assert(out@ =~= self.rows@.take(i + 1));
            i = i + 1;
        }
        assert(self.rows@.take(i as int) =~= self.rows@);
        out
    }

    /// Inserts a row with the given text, not completed, under the next id
    /// of the sequence, and returns it.
    pub fn create(&mut self, text: &str) -> (r: Result<Todo, StoreError>)
        requires
            old(self).wf(),
        ensures
            final(self).wf(),
            text@.len() == 0 ==> r == Err::<Todo, StoreError>(StoreError::EmptyText),
            text@.len() > 0 && old(self)@.next_id > i32::MAX ==> r == Err::<Todo, StoreError>(
                StoreError::IdsExhausted,
            ),
            r is Err ==> final(self)@ == old(self)@,
            r is Ok <==> text@.len() > 0 && old(self)@.next_id <= i32::MAX,
            r matches Ok(t) ==> old(self)@.created(text@, final(self)@, t),
    {
        if let Err(e) = check_text(text) {
            return Err(e);
        }
        if self.next_id > i32::MAX as i64 {
            return Err(StoreError::IdsExhausted);
        }
        let t = Todo { id: self.next_id as i32, text: String::from_str(text), completed: false };
        let ghost before = self@;
        self.rows.push(t.clone());
        self.next_id = self.next_id + 1;
        assert(self@.rows == before.rows.push(t));
        Ok(t)
    }

    /// Flips `completed` on the row with the given id and returns that row.
    pub fn toggle(&mut self, id: i32) -> (r: Result<Todo, StoreError>)
        requires
            old(self).wf(),
        ensures
            final(self).wf(),
            r is Err <==> !old(self)@.has_id(id as int),
            r is Err ==> r == Err::<Todo, StoreError>(StoreError::NotFound) && final(self)@ == old(
                self,
            )@,
            r matches Ok(t) ==> old(self)@.toggled(id as int, final(self)@, t),
    {
        let mut i: usize = 0;
        while i < self.rows.len()
            invariant
                i <= self.rows@.len(),
                self.wf(),
                self@ == old(self)@,
                forall|k: int| 0 <= k < i ==> self.rows@[k].id != id,
            decreases self.rows@.len() - i,
        {
            if self.rows[i].id == id {
                let t = Todo {
                    id: self.rows[i].id,
                    text: self.rows[i].text.clone(),
                    completed: !self.rows[i].completed,
                };
                let ghost before = self@;
                assert(before.rows[i as int].id == id);
                self.rows.set(i, t.clone());
                proof {
                    assert(self@.rows == before.rows.update(i as int, t));
                    assert(before.toggled_at(id as int, i as int, self@, t));
                    assert(self@.rows[i as int] == t);
                }
                return Ok(t);
            }
            i = i + 1;
        }
        proof {
            assert forall|k: int| 0 <= k < self@.rows.len() implies #[trigger] self@.rows[k].id
                != id by {
                assert(self.rows@[k].id != id);
            }
        }
        Err(StoreError::NotFound)
    }

    /// Removes the row with the given id; does nothing when there is none.
    pub fn delete(&mut self, id: i32)
        requires
            old(self).wf(),
        ensures
            final(self).wf(),
            old(self)@.deleted(id as int, final(self)@),
    {
        let mut i: usize = 0;
        while i < self.rows.len()
            invariant
                i <= self.rows@.len(),
                self.wf(),
                self@ == old(self)@,
                forall|k: int| 0 <= k < i ==> self.rows@[k].id != id,
            decreases self.rows@.len() - i,
        {
            if self.rows[i].id == id {
                let ghost before = self@;
                self.rows.remove(i);
                proof {
                    assert(self@.rows == before.rows.remove(i as int));
                    lemma_filter_out_unique(before, id as int, i as int);
                }
                return;
            }
            i = i + 1;
        }
        proof {
            lemma_filter_out_absent(self@.rows, id as int);
        }
    }
}

} // verus!
