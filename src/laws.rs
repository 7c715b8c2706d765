//! What holds of the service across operations: each law relates the plan
//! that a handler makes to what the store does with it.

use vstd::prelude::*;
use crate::handlers::{create_plan, list_plan, search_plan, update_plan, Outcome, Statement, StoreError};
use crate::models::{filter_of, stored_category, TodoView, ALL_CATEGORIES, DEFAULT_CATEGORY};
use crate::store::{executed, row_matches, rows_of, selected, StoreView};
use crate::text::{like_from, like_matches, like_of};

verus! {

broadcast use vstd::seq_lib::group_filter_ensures;

proof fn lemma_filter_keeps_all(s: Seq<TodoView>, p: spec_fn(TodoView) -> bool)
    requires
        forall|i: int| 0 <= i < s.len() ==> p(#[trigger] s[i]),
    ensures
        s.filter(p) == s,
    decreases s.len(),
{
    reveal(Seq::filter);
    if s.len() > 0 {
        assert forall|i: int| 0 <= i < s.drop_last().len() implies p(#[trigger] s.drop_last()[i]) by {
            assert(s.drop_last()[i] == s[i]);
        }
        lemma_filter_keeps_all(s.drop_last(), p);
        assert(s.drop_last().push(s.last()) =~= s);
    }
}

proof fn lemma_filter_member(s: Seq<TodoView>, p: spec_fn(TodoView) -> bool, x: TodoView)
    ensures
        s.filter(p).contains(x) <==> s.contains(x) && p(x),
{
    if s.filter(p).contains(x) {
        s.lemma_filter_contains_rev(p, x);
        let k = choose|k: int| 0 <= k < s.filter(p).len() && s.filter(p)[k] == x;
        assert(p(s.filter(p)[k]));
    }
    if s.contains(x) && p(x) {
        let k = choose|k: int| 0 <= k < s.len() && s[k] == x;
        assert(s.filter(p).contains(s[k]));
    }
}

/// A listing or search selects exactly the rows that match its query and
/// category, and an unrestricted one selects every row in storage order.
pub proof fn law_selection_members(
    rows: Seq<TodoView>,
    query: Option<Seq<char>>,
    category: Option<Seq<char>>,
)
    ensures
        forall|x: TodoView|
            #![trigger selected(rows, query, category).contains(x)]
            selected(rows, query, category).contains(x) <==> rows.contains(x) && row_matches(
                x,
                query,
                category,
            ),
        query is None && category is None ==> selected(rows, query, category) == rows,
{
    let p = |r: TodoView| row_matches(r, query, category);
    assert forall|x: TodoView|
        #![trigger selected(rows, query, category).contains(x)]
        selected(rows, query, category).contains(x) <==> rows.contains(x) && row_matches(
            x,
            query,
            category,
        ) by {
        lemma_filter_member(rows, p, x);
    }
    if query is None && category is None {
        lemma_filter_keeps_all(rows, p);
    }
}

/// Creating a task stores its category as given when it is non-empty and the
/// default label when it is empty, under the next identifier; the create
/// succeeds unless the identifiers are used up.
pub proof fn law_create_stores_category(
    t: TodoView,
    s: Statement,
    before: StoreView,
    after: StoreView,
    r: Result<Outcome, StoreError>,
)
    requires
        create_plan(t, s),
        executed(before, after, s, r),
    ensures
        before.next_id < i32::MAX <==> r is Ok,
        r is Ok ==> after.rows.last() == (TodoView {
            id: Some(before.next_id as i32),
            title: t.title,
            completed: t.completed,
            category: stored_category(t.category),
        }),
        r is Ok && t.category.len() == 0 ==> after.rows.last().category == DEFAULT_CATEGORY@,
        r is Ok && t.category.len() > 0 ==> after.rows.last().category == t.category,
{
}

/// After a task is created, an unfiltered listing (no category, or "all")
/// returns every row: those stored before, unchanged and in place, and the
/// new one with the identifier that the store assigned.
pub proof fn law_created_is_listed(
    t: TodoView,
    s1: Statement,
    before: StoreView,
    mid: StoreView,
    r1: Result<Outcome, StoreError>,
    category: Option<Seq<char>>,
    s2: Statement,
    after: StoreView,
    r2: Result<Outcome, StoreError>,
)
    requires
        create_plan(t, s1),
        executed(before, mid, s1, r1),
        r1 is Ok,
        list_plan(category, s2),
        category is None || category == Some(ALL_CATEGORIES@),
        executed(mid, after, s2, r2),
    ensures
        rows_of(r2) == Some(mid.rows),
        forall|i: int| 0 <= i < before.rows.len() ==> mid.rows[i] == before.rows[i],
        mid.rows.contains(
            TodoView {
                id: Some(before.next_id as i32),
                title: t.title,
                completed: t.completed,
                category: stored_category(t.category),
            },
        ),
{
    law_selection_members(mid.rows, None, None);
    assert(filter_of(category) is None);
    assert(mid.rows[before.rows.len() as int] == mid.rows.last());
}

/// The record that creating `t` stores in a table of value `before`.
pub open spec fn created_row(t: TodoView, before: StoreView) -> TodoView {
    TodoView {
        id: Some(before.next_id as i32),
        title: t.title,
        completed: t.completed,
        category: stored_category(t.category),
    }
}

/// The `k`-th step of a run of creates: `stmts[k]` inserts `ts[k]`, taking the
/// store from `states[k]` to `states[k + 1]`, and succeeds.
pub open spec fn create_step(
    ts: Seq<TodoView>,
    stmts: Seq<Statement>,
    states: Seq<StoreView>,
    rs: Seq<Result<Outcome, StoreError>>,
    k: int,
) -> bool {
    &&& create_plan(ts[k], stmts[k])
    &&& executed(states[k], states[k + 1], stmts[k], rs[k])
    &&& rs[k] is Ok
}

proof fn lemma_creates_prefix(
    ts: Seq<TodoView>,
    stmts: Seq<Statement>,
    states: Seq<StoreView>,
    rs: Seq<Result<Outcome, StoreError>>,
    m: int,
)
    requires
        0 <= m <= ts.len(),
        stmts.len() == ts.len(),
        rs.len() == ts.len(),
        states.len() == ts.len() + 1,
        forall|k: int| 0 <= k < ts.len() ==> #[trigger] create_step(ts, stmts, states, rs, k),
    ensures
        states[m].rows.len() == states[0].rows.len() + m,
        forall|i: int| 0 <= i < states[0].rows.len() ==> states[m].rows[i] == states[0].rows[i],
        forall|k: int|
            0 <= k < m ==> states[m].rows[states[0].rows.len() + k] == created_row(
                #[trigger] ts[k],
                states[k],
            ),
    decreases m,
{
    if m > 0 {
        lemma_creates_prefix(ts, stmts, states, rs, m - 1);
        assert(create_step(ts, stmts, states, rs, m - 1));
        let base = states[0].rows.len();
        assert(states[m].rows == states[m - 1].rows.push(created_row(ts[m - 1], states[m - 1])));
        assert forall|k: int| 0 <= k < m implies states[m].rows[base + k] == created_row(
            #[trigger] ts[k],
            states[k],
        ) by {
            if k < m - 1 {
                assert(states[m].rows[base + k] == states[m - 1].rows[base + k]);
            }
        }
    }
}

/// After any run of successful creates, an unfiltered listing (no category,
/// or "all") returns every row: those stored before the run, unchanged and in
/// place, then each created task with the identifier that the store assigned
/// to it.
pub proof fn law_created_are_listed(
    ts: Seq<TodoView>,
    stmts: Seq<Statement>,
    states: Seq<StoreView>,
    rs: Seq<Result<Outcome, StoreError>>,
    category: Option<Seq<char>>,
    s: Statement,
    after: StoreView,
    r: Result<Outcome, StoreError>,
)
    requires
        stmts.len() == ts.len(),
        rs.len() == ts.len(),
        states.len() == ts.len() + 1,
        forall|k: int| 0 <= k < ts.len() ==> #[trigger] create_step(ts, stmts, states, rs, k),
        list_plan(category, s),
        category is None || category == Some(ALL_CATEGORIES@),
        executed(states.last(), after, s, r),
    ensures
        rows_of(r) == Some(states.last().rows),
        forall|i: int|
            0 <= i < states[0].rows.len() ==> rows_of(r)->Some_0[i] == states[0].rows[i],
        forall|k: int|
            0 <= k < ts.len() ==> rows_of(r)->Some_0.contains(
                created_row(#[trigger] ts[k], states[k]),
            ),
{
    lemma_creates_prefix(ts, stmts, states, rs, ts.len() as int);
    law_selection_members(states.last().rows, None, None);
    assert(filter_of(category) is None);
    let base = states[0].rows.len();
    assert forall|k: int| 0 <= k < ts.len() implies rows_of(r)->Some_0.contains(
        created_row(#[trigger] ts[k], states[k]),
    ) by {
        assert(states.last().rows[base + k] == created_row(ts[k], states[k]));
    }
}

/// A listing with a category other than "all" returns exactly the rows of
/// that category; one with "all" or with none returns every row.
pub proof fn law_listing_by_category(
    category: Option<Seq<char>>,
    s: Statement,
    before: StoreView,
    after: StoreView,
    r: Result<Outcome, StoreError>,
)
    requires
        list_plan(category, s),
        executed(before, after, s, r),
    ensures
        after == before,
        rows_of(r) is Some,
        category is Some && category->Some_0 != ALL_CATEGORIES@ ==> forall|x: TodoView|
            #![trigger rows_of(r)->Some_0.contains(x)]
            rows_of(r)->Some_0.contains(x) <==> before.rows.contains(x) && x.category
                == category->Some_0,
        category is None || category == Some(ALL_CATEGORIES@) ==> rows_of(r) == Some(before.rows),
{
    law_selection_members(before.rows, None, filter_of(category));
}

/// Updating the task `id` makes every row with that identifier hold exactly
/// the payload's title, flag and category, leaves every other row as it was,
/// and succeeds whether or not such a row exists.
pub proof fn law_update_then_fetch(
    id: i32,
    t: TodoView,
    s: Statement,
    before: StoreView,
    after: StoreView,
    r: Result<Outcome, StoreError>,
)
    requires
        update_plan(id, t, s),
        executed(before, after, s, r),
    ensures
        r matches Ok(Outcome::Written),
        after.rows.len() == before.rows.len(),
        forall|i: int|
            0 <= i < after.rows.len() && before.rows[i].id == Some(id) ==> #[trigger] after.rows[i]
                == (TodoView {
                id: Some(id),
                title: t.title,
                completed: t.completed,
                category: t.category,
            }),
        forall|i: int|
            0 <= i < after.rows.len() && before.rows[i].id != Some(id) ==> #[trigger] after.rows[i]
                == before.rows[i],
        (forall|i: int| 0 <= i < before.rows.len() ==> (#[trigger] before.rows[i]).id != Some(id))
            ==> after.rows == before.rows,
{
    if forall|i: int| 0 <= i < before.rows.len() ==> (#[trigger] before.rows[i]).id != Some(id) {
        assert(after.rows =~= before.rows);
    }
}

/// Deleting the task `id` leaves no row with that identifier and keeps every
/// other row; deleting it again succeeds and changes nothing.
pub proof fn law_delete_is_idempotent(
    id: i32,
    before: StoreView,
    mid: StoreView,
    r1: Result<Outcome, StoreError>,
    after: StoreView,
    r2: Result<Outcome, StoreError>,
)
    requires
        executed(before, mid, Statement::Delete { id }, r1),
        executed(mid, after, Statement::Delete { id }, r2),
    ensures
        r1 matches Ok(Outcome::Written),
        r2 matches Ok(Outcome::Written),
        forall|i: int| 0 <= i < mid.rows.len() ==> (#[trigger] mid.rows[i]).id != Some(id),
        forall|x: TodoView|
            #![trigger mid.rows.contains(x)]
            mid.rows.contains(x) <==> before.rows.contains(x) && x.id != Some(id),
        after.rows == mid.rows,
        after.next_id == mid.next_id,
{
    let p = |r: TodoView| r.id != Some(id);
    assert forall|i: int| 0 <= i < mid.rows.len() implies (#[trigger] mid.rows[i]).id != Some(id) by {
        assert(p(before.rows.filter(p)[i]));
    }
    assert forall|x: TodoView| #![trigger mid.rows.contains(x)]
        mid.rows.contains(x) <==> before.rows.contains(x) && x.id != Some(id) by {
        lemma_filter_member(before.rows, p, x);
    }
    lemma_filter_keeps_all(mid.rows, p);
}

/// `q` holds no character with a pattern meaning: no `%`, `_` or backslash.
pub open spec fn plain_text(q: Seq<char>) -> bool {
    forall|i: int| 0 <= i < q.len() ==> #[trigger] q[i] != '%' && q[i] != '_' && q[i] != '\\'
}

/// `needle` occurs in `hay` as a contiguous run of characters.
pub open spec fn is_infix(needle: Seq<char>, hay: Seq<char>) -> bool {
    exists|j: int|
        0 <= j && j + needle.len() <= hay.len() && #[trigger] hay.subrange(j, j + needle.len())
            == needle
}

proof fn lemma_trailing_any(q: Seq<char>, t: Seq<char>, j: int)
    requires
        0 <= j <= t.len(),
    ensures
        like_from(like_of(q), t, q.len() + 1 as int, j),
    decreases t.len() - j,
{
    let p = like_of(q);
    assert(p[q.len() + 1 as int] == '%');
    if j < t.len() {
        lemma_trailing_any(q, t, j + 1);
    } else {
        assert(like_from(p, t, q.len() + 2 as int, j));
    }
}

proof fn lemma_literal_run(q: Seq<char>, t: Seq<char>, i: int, j: int)
    requires
        plain_text(q),
        1 <= i <= q.len() + 1,
        0 <= j <= t.len(),
    ensures
        like_from(like_of(q), t, i, j) <==> (j + (q.len() + 1 - i) <= t.len() && t.subrange(
            j,
            j + (q.len() + 1 - i),
        ) == q.subrange(i - 1, q.len() as int)),
    decreases q.len() + 1 - i,
{
    let p = like_of(q);
    if i == q.len() + 1 {
        lemma_trailing_any(q, t, j);
        assert(t.subrange(j, j) =~= q.subrange(i - 1, q.len() as int));
    } else {
        assert(p[i] == q[i - 1]);
        assert(q[i - 1] != '%' && q[i - 1] != '_' && q[i - 1] != '\\');
        if j < t.len() {
            lemma_literal_run(q, t, i + 1, j + 1);
            let n = q.len() + 1 - i;
            if j + n <= t.len() {
                let a = t.subrange(j, j + n);
                let b = q.subrange(i - 1, q.len() as int);
                if a == b {
                    assert(a[0] == t[j] && b[0] == q[i - 1]);
                    assert(t.subrange(j + 1, j + n) =~= a.subrange(1, n));
                    assert(q.subrange(i, q.len() as int) =~= b.subrange(1, n));
                }
                if t[j] == q[i - 1] && t.subrange(j + 1, j + n) == q.subrange(i, q.len() as int) {
                    assert(a =~= b) by {
                        assert forall|k: int| 0 <= k < n implies a[k] == b[k] by {
                            if k > 0 {
                                assert(a[k] == t.subrange(j + 1, j + n)[k - 1]);
                                assert(b[k] == q.subrange(i, q.len() as int)[k - 1]);
                            }
                        }
                    }
                }
            }
        }
    }
}

proof fn lemma_leading_any(q: Seq<char>, t: Seq<char>, j: int)
    requires
        0 <= j <= t.len(),
    ensures
        like_from(like_of(q), t, 0, j) <==> exists|k: int|
            j <= k <= t.len() && #[trigger] like_from(like_of(q), t, 1, k),
    decreases t.len() - j,
{
    let p = like_of(q);
    assert(p[0] == '%');
    if like_from(p, t, 1, j) {
        assert(j <= j <= t.len() && like_from(p, t, 1, j));
    }
    if j < t.len() {
        assert(like_from(p, t, 0, j) == (like_from(p, t, 1, j) || like_from(p, t, 0, j + 1)));
        lemma_leading_any(q, t, j + 1);
        if like_from(p, t, 0, j + 1) {
            let k = choose|k: int| j + 1 <= k <= t.len() && #[trigger] like_from(p, t, 1, k);
            assert(j <= k <= t.len() && like_from(p, t, 1, k));
        }
        if exists|k: int| j <= k <= t.len() && #[trigger] like_from(p, t, 1, k) {
            let k = choose|k: int| j <= k <= t.len() && #[trigger] like_from(p, t, 1, k);
            if k > j {
                assert(j + 1 <= k <= t.len() && like_from(p, t, 1, k));
            }
        }
    } else {
        assert(like_from(p, t, 0, j) == like_from(p, t, 1, j));
    }
}

/// For a query with no `%`, `_` or backslash, a title matches the search
/// pattern of the query exactly when it contains the query.
pub proof fn law_plain_search_is_substring(q: Seq<char>, t: Seq<char>)
    requires
        plain_text(q),
    ensures
        like_matches(like_of(q), t) <==> is_infix(q, t),
{
    lemma_leading_any(q, t, 0);
    assert(q.subrange(0, q.len() as int) =~= q);
    if like_matches(like_of(q), t) {
        let k = choose|k: int| 0 <= k <= t.len() && #[trigger] like_from(like_of(q), t, 1, k);
        lemma_literal_run(q, t, 1, k);
        assert(t.subrange(k, k + q.len()) == q);
    }
    if is_infix(q, t) {
        let j = choose|j: int|
            0 <= j && j + q.len() <= t.len() && #[trigger] t.subrange(j, j + q.len()) == q;
        lemma_literal_run(q, t, 1, j);
        assert(like_from(like_of(q), t, 1, j));
    }
}

/// A search returns exactly the rows whose title matches the pattern
/// `%query%` and, unless the category is absent or "all", whose category equals it.
pub proof fn law_search_matches_titles(
    query: Seq<char>,
    category: Option<Seq<char>>,
    s: Statement,
    before: StoreView,
    after: StoreView,
    r: Result<Outcome, StoreError>,
)
    requires
        search_plan(query, category, s),
        executed(before, after, s, r),
    ensures
        after == before,
        rows_of(r) is Some,
        forall|x: TodoView|
            #![trigger rows_of(r)->Some_0.contains(x)]
            rows_of(r)->Some_0.contains(x) <==> before.rows.contains(x) && like_matches(like_of(query), x.title)
                && (filter_of(category) matches Some(c) ==> x.category == c),
{
    law_selection_members(before.rows, Some(query), filter_of(category));
}

} // verus!
