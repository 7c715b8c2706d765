use vstd::prelude::*;
use vstd::string::StringExecFns;
use crate::handlers::{Outcome, Statement, StoreError};
use crate::models::{opt_view, Todo, TodoView};
use crate::text::{chars_of, like_match, like_matches, like_of, like_pattern};

verus! {

/// The values of a sequence of records.
pub open spec fn views(v: Seq<Todo>) -> Seq<TodoView> {
    v.map_values(|t: Todo| t@)
}

/// The text values of a sequence of strings.
pub open spec fn labels(v: Seq<String>) -> Seq<Seq<char>> {
    v.map_values(|s: String| s@)
}

/// The identifier of a stored row (stored rows always carry one).
pub open spec fn id_of(r: TodoView) -> int {
    r.id->Some_0 as int
}

/// Every row carries an identifier in `1..next_id`, and identifiers strictly
/// increase in storage order, so none occurs twice.
pub open spec fn valid_rows(rows: Seq<TodoView>, next_id: int) -> bool {
    &&& forall|i: int|
        0 <= i < rows.len() ==> (#[trigger] rows[i]).id is Some && 1 <= id_of(rows[i]) < next_id
    &&& forall|i: int, j: int|
        0 <= i < j < rows.len() ==> id_of(#[trigger] rows[i]) < id_of(#[trigger] rows[j])
}

/// A row is selected by an optional title query and an optional category:
/// its title matches the `LIKE` pattern `%query%` (so `%` and `_` in the
/// query keep their pattern meaning), and its category equals the filter.
pub open spec fn row_matches(r: TodoView, query: Option<Seq<char>>, category: Option<Seq<char>>) -> bool {
    &&& (query matches Some(q) ==> like_matches(like_of(q), r.title))
    &&& (category matches Some(c) ==> r.category == c)
}

/// The rows selected by an optional title query and an optional category, in
/// storage order.
pub open spec fn selected(
    rows: Seq<TodoView>,
    query: Option<Seq<char>>,
    category: Option<Seq<char>>,
) -> Seq<TodoView> {
    rows.filter(|r: TodoView| row_matches(r, query, category))
}

/// The rows after an update of the row `id`: its three mutable fields take
/// the new values; every other row stays.
pub open spec fn updated(
    rows: Seq<TodoView>,
    id: i32,
    title: Seq<char>,
    completed: bool,
    category: Seq<char>,
) -> Seq<TodoView> {
    rows.map_values(
        |r: TodoView|
            if r.id == Some(id) {
                TodoView { id: r.id, title, completed, category }
            } else {
                r
            },
    )
}

/// The rows after removal of the row `id`.
pub open spec fn without(rows: Seq<TodoView>, id: i32) -> Seq<TodoView> {
    rows.filter(|r: TodoView| r.id != Some(id))
}

/// The categories that occur among the rows.
pub open spec fn categories_of(rows: Seq<TodoView>) -> Set<Seq<char>> {
    Set::new(|c: Seq<char>| exists|i: int| 0 <= i < rows.len() && (#[trigger] rows[i]).category == c)
}

/// The records that a successful selection gave.
pub open spec fn rows_of(r: Result<Outcome, StoreError>) -> Option<Seq<TodoView>> {
    match r {
        Ok(Outcome::Rows(v)) => Some(views(v@)),
        _ => None,
    }
}

/// The labels that a successful category selection gave.
pub open spec fn labels_of(r: Result<Outcome, StoreError>) -> Option<Seq<Seq<char>>> {
    match r {
        Ok(Outcome::Labels(v)) => Some(labels(v@)),
        _ => None,
    }
}

/// Running `stmt` on a table of value `before` leaves it with value `after`
/// and gives `r`.
pub open spec fn executed(
    before: StoreView,
    after: StoreView,
    stmt: Statement,
    r: Result<Outcome, StoreError>,
) -> bool {
    match stmt {
        Statement::Insert { title, completed, category } => if before.next_id < i32::MAX {
            &&& r matches Ok(Outcome::Written)
            &&& after.next_id == before.next_id + 1
            &&& after.rows == before.rows.push(
                TodoView {
                    id: Some(before.next_id as i32),
                    title: title@,
                    completed,
                    category: category@,
                },
            )
        } else {
            r is Err && after == before
        },
        Statement::Select { category } => {
            &&& after == before
            &&& rows_of(r) == Some(selected(before.rows, None, opt_view(category)))
        },
        Statement::Update { id, title, completed, category } => {
            &&& r matches Ok(Outcome::Written)
            &&& after.next_id == before.next_id
            &&& after.rows == updated(before.rows, id, title@, completed, category@)
        },
        Statement::Delete { id } => {
            &&& r matches Ok(Outcome::Written)
            &&& after.next_id == before.next_id
            &&& after.rows == without(before.rows, id)
        },
        Statement::Search { query, category } => {
            &&& after == before
            &&& rows_of(r) == Some(selected(before.rows, Some(query@), opt_view(category)))
        },
        Statement::SelectCategories => {
            &&& after == before
            &&& labels_of(r) matches Some(l) && l.no_duplicates() && l.to_set() == categories_of(
                before.rows,
            )
        },
    }
}

/// The value of a store: its rows in storage order, and the identifier that
/// the next insert assigns.
pub struct StoreView {
    pub rows: Seq<TodoView>,
    pub next_id: int,
}

/// An in-memory `todo` table: rows in storage order and an auto-increment
/// identifier. Searches match titles with `LIKE` patterns, comparing
/// characters exactly (see `like_from`).
pub struct MemStore {
    rows: Vec<Todo>,
    next_id: i32,
}

impl View for MemStore {
    type V = StoreView;

    closed spec fn view(&self) -> StoreView {
        StoreView { rows: views(self.rows@), next_id: self.next_id as int }
    }
}

fn row_selected(t: &Todo, query: &Option<String>, category: &Option<String>) -> (r: bool)
    ensures
        r == row_matches(t@, opt_view(*query), opt_view(*category)),
{
    let title_ok = match query {
        Some(q) => {
            let pattern = chars_of(like_pattern(q.as_str()).as_str());
            like_match(&pattern, &chars_of(t.title.as_str()))
        },
        None => true,
    };
    let category_ok = match category {
        Some(c) => t.category == *c,
        None => true,
    };
    title_ok && category_ok
}

fn has_label(out: &Vec<String>, c: &String) -> (r: bool)
    ensures
        r == labels(out@).contains(c@),
{
    let mut k: usize = 0;
    while k < out.len()
        invariant
            k <= out@.len(),
            forall|j: int| 0 <= j < k ==> #[trigger] labels(out@)[j] != c@,
        decreases out@.len() - k,
    {
        if out[k] == *c {
            assert(labels(out@)[k as int] == c@);
            return true;
        }
        k = k + 1;
    }
    false
}

impl MemStore {
    /// The store is well formed.
    pub open spec fn wf(&self) -> bool {
        &&& valid_rows(self@.rows, self@.next_id)
        &&& 1 <= self@.next_id <= i32::MAX
    }

    /// An empty table whose first insert gets identifier 1.
    pub fn new() -> (s: MemStore)
        ensures
            s.wf(),
            s@.rows == Seq::<TodoView>::empty(),
            s@.next_id == 1,
    {
        let s = MemStore { rows: Vec::new(), next_id: 1 };
        assert(s@.rows =~= Seq::<TodoView>::empty());
        s
    }

    /// Appends a row under the next identifier, which it returns; fails, and
    /// changes nothing, once the identifiers are used up.
    pub fn insert(&mut self, title: String, completed: bool, category: String) -> (r: Result<i32, StoreError>)
        requires
            old(self).wf(),
        ensures
            final(self).wf(),
            old(self)@.next_id < i32::MAX <==> r is Ok,
            r matches Ok(id) ==> id == old(self)@.next_id && final(self)@.next_id == id + 1
                && final(self)@.rows == old(self)@.rows.push(
                TodoView { id: Some(id), title: title@, completed, category: category@ },
            ),
            r is Err ==> final(self)@ == old(self)@,
    {
        if self.next_id == i32::MAX {
            return Err(StoreError { detail: String::from_str("identifiers exhausted") });
        }
        let id = self.next_id;
        let ghost before = self.rows@;
        self.rows.push(Todo { id: Some(id), title, completed, category });
        self.next_id = id + 1;
        assert(views(self.rows@) =~= views(before).push(
            TodoView { id: Some(id), title: title@, completed, category: category@ },
        ));
        Ok(id)
    }

    /// The rows whose title contains `query` (when given) and whose category
    /// equals `category` (when given), in storage order.
    pub fn select(&self, query: &Option<String>, category: &Option<String>) -> (r: Vec<Todo>)
        ensures
            views(r@) == selected(self@.rows, opt_view(*query), opt_view(*category)),
    {
        let ghost q = opt_view(*query);
        let ghost c = opt_view(*category);
        let mut out: Vec<Todo> = Vec::new();
        let mut i: usize = 0;
        while i < self.rows.len()
            invariant
                i <= self.rows@.len(),
                q == opt_view(*query),
                c == opt_view(*category),
                views(out@) == selected(views(self.rows@).subrange(0, i as int), q, c),
            decreases self.rows@.len() - i,
        {
            let t = &self.rows[i];
            let ghost before = out@;
            proof {
                reveal(Seq::filter);
                assert(views(self.rows@).subrange(0, i + 1).drop_last() =~= views(
                    self.rows@,
                ).subrange(0, i as int));
                assert(views(self.rows@).subrange(0, i + 1).last() == t@);
            }
            if row_selected(t, query, category) {
                out.push(t.clone());
                assert(views(out@) =~= views(before).push(t@));
            }
            i = i + 1;
        }
        assert(views(self.rows@).subrange(0, self.rows@.len() as int) =~= views(self.rows@));
        out
    }

    /// Overwrites title, completion flag and category of the row `id`; with
    /// no such row, nothing changes.
    pub fn update(&mut self, id: i32, title: String, completed: bool, category: String)
        requires
            old(self).wf(),
        ensures
            final(self).wf(),
            final(self)@.next_id == old(self)@.next_id,
            final(self)@.rows == updated(old(self)@.rows, id, title@, completed, category@),
    {
        let ghost before = views(self.rows@);
        let ghost goal = updated(before, id, title@, completed, category@);
        let mut i: usize = 0;
        while i < self.rows.len()
            invariant
                i <= self.rows@.len(),
                self.rows@.len() == before.len(),
                self.next_id == old(self).next_id,
                goal == updated(before, id, title@, completed, category@),
                goal.len() == before.len(),
                forall|k: int| 0 <= k < i ==> #[trigger] views(self.rows@)[k] == goal[k],
                forall|k: int| i <= k < before.len() ==> #[trigger] views(self.rows@)[k] == before[k],
            decreases self.rows@.len() - i,
        {
            let ghost rows_before = self.rows@;
            assert(views(rows_before)[i as int] == before[i as int]);
            if self.rows[i].id == Some(id) {
                let row = Todo { id: Some(id), title: title.clone(), completed, category: category.clone() };
                self.rows.set(i, row);
            }
            assert(views(self.rows@)[i as int] == goal[i as int]);
            assert forall|k: int| 0 <= k < before.len() && k != i implies #[trigger] views(
                self.rows@,
            )[k] == views(rows_before)[k] by {
                assert(self.rows@[k] == rows_before[k]);
            }
            i = i + 1;
        }
        assert(views(self.rows@) =~= goal);
    }

    /// Removes the row `id`; with no such row, nothing changes.
    pub fn delete(&mut self, id: i32)
        requires
            old(self).wf(),
        ensures
            final(self).wf(),
            final(self)@.next_id == old(self)@.next_id,
            final(self)@.rows == without(old(self)@.rows, id),
    {
        let ghost before = views(self.rows@);
        let ghost next = self.next_id as int;
        let mut kept: Vec<Todo> = Vec::new();
        let mut i: usize = 0;
        while i < self.rows.len()
            invariant
                i <= self.rows@.len(),
                before == views(self.rows@),
                valid_rows(before, next),
                valid_rows(views(kept@), next),
                views(kept@) == without(before.subrange(0, i as int), id),
                i < before.len() ==> forall|k: int|
                    0 <= k < kept@.len() ==> id_of(#[trigger] views(kept@)[k]) < id_of(before[i as int]),
            decreases self.rows@.len() - i,
        {
            let ghost old_kept = views(kept@);
            proof {
                reveal(Seq::filter);
                assert(before.subrange(0, i + 1).drop_last() =~= before.subrange(0, i as int));
            }
            if self.rows[i].id != Some(id) {
                kept.push(self.rows[i].clone());
                assert(views(kept@) =~= old_kept.push(before[i as int]));
            }
            i = i + 1;
        }
        assert(before.subrange(0, before.len() as int) =~= before);
        self.rows = kept;
    }

    /// The distinct categories of all rows, each once, in the order of their
    /// first occurrence.
    pub fn categories(&self) -> (r: Vec<String>)
        ensures
            labels(r@).no_duplicates(),
            labels(r@).to_set() == categories_of(self@.rows),
    {
        let ghost before = self@.rows;
        let mut out: Vec<String> = Vec::new();
        let mut i: usize = 0;
        while i < self.rows.len()
            invariant
                i <= self.rows@.len(),
                before == views(self.rows@),
                labels(out@).no_duplicates(),
                forall|k: int|
                    0 <= k < out@.len() ==> exists|j: int|
                        0 <= j < i && (#[trigger] before[j]).category == #[trigger] labels(out@)[k],
                forall|j: int| 0 <= j < i ==> labels(out@).contains((#[trigger] before[j]).category),
            decreases self.rows@.len() - i,
        {
            let ghost old_out = labels(out@);
            let c = &self.rows[i].category;
            assert(before[i as int].category == c@);
            if !has_label(&out, c) {
                out.push(c.clone());
                assert(labels(out@) =~= old_out.push(c@));
                assert forall|k: int| 0 <= k < out@.len() implies exists|j: int|
                    0 <= j < i + 1 && (#[trigger] before[j]).category == #[trigger] labels(out@)[k] by {
                    if k < old_out.len() {
                        assert(labels(out@)[k] == old_out[k]);
                    } else {
                        assert(before[i as int].category == labels(out@)[k]);
                    }
                }
                assert forall|j: int| 0 <= j < i + 1 implies labels(out@).contains(
                    (#[trigger] before[j]).category,
                ) by {
                    if j < i {
                        let k = choose|k: int| 0 <= k < old_out.len() && old_out[k] == before[j].category;
                        assert(labels(out@)[k] == old_out[k]);
                    } else {
                        assert(labels(out@)[old_out.len() as int] == c@);
                    }
                }
            }
            i = i + 1;
        }
        assert(labels(out@).to_set() =~= categories_of(before)) by {
            assert forall|c: Seq<char>| labels(out@).to_set().contains(c) implies #[trigger] categories_of(
                before,
            ).contains(c) by {
                let k = choose|k: int| 0 <= k < labels(out@).len() && labels(out@)[k] == c;
            }
            assert forall|c: Seq<char>| #[trigger] categories_of(before).contains(c) implies labels(
                out@,
            ).to_set().contains(c) by {
                let j = choose|j: int| 0 <= j < before.len() && before[j].category == c;
            }
        }
        out
    }
    /// Runs one statement on the table.
    pub fn execute(&mut self, stmt: Statement) -> (r: Result<Outcome, StoreError>)
        requires
            old(self).wf(),
        ensures
            final(self).wf(),
            executed(old(self)@, final(self)@, stmt, r),
    {
        match stmt {
            Statement::Insert { title, completed, category } => {
                match self.insert(title, completed, category) {
                    Ok(_) => Ok(Outcome::Written),
                    Err(e) => Err(e),
                }
            },
            Statement::Select { category } => Ok(Outcome::Rows(self.select(&None, &category))),
            Statement::Update { id, title, completed, category } => {
                self.update(id, title, completed, category);
                Ok(Outcome::Written)
            },
            Statement::Delete { id } => {
                self.delete(id);
                Ok(Outcome::Written)
            },
            Statement::Search { query, category } => Ok(
                Outcome::Rows(self.select(&Some(query), &category)),
            ),
            Statement::SelectCategories => Ok(Outcome::Labels(self.categories())),
        }
    }
}

} // verus!
