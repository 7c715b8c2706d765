use vstd::prelude::*;
use vstd::string::StringExecFns;

verus! {

/// The label stored for a task created with an empty category.
pub const DEFAULT_CATEGORY: &'static str = "default";

/// The filter value that means "no filter".
pub const ALL_CATEGORIES: &'static str = "all";

/// One task record.
///
/// `id` is absent on a creation request and always present in a stored record.
#[derive(Debug)]
pub struct Todo {
    pub id: Option<i32>,
    pub title: String,
    pub completed: bool,
    pub category: String,
}

/// The mathematical value of a task record.
pub struct TodoView {
    pub id: Option<i32>,
    pub title: Seq<char>,
    pub completed: bool,
    pub category: Seq<char>,
}

impl View for Todo {
    type V = TodoView;

    open spec fn view(&self) -> TodoView {
        TodoView {
            id: self.id,
            title: self.title@,
            completed: self.completed,
            category: self.category@,
        }
    }
}

impl Clone for Todo {
    fn clone(&self) -> (r: Todo)
        ensures
            r@ == self@,
    {
        Todo {
            id: self.id,
            title: self.title.clone(),
            completed: self.completed,
            category: self.category.clone(),
        }
    }
}

/// Query parameters of a search: the text looked for in titles, and an
/// optional category filter.
pub struct SearchQuery {
    pub query: String,
    pub category: Option<String>,
}

/// Query parameters of a listing: an optional category filter.
pub struct FetchQuery {
    pub category: Option<String>,
}

/// The text values of an optional string.
pub open spec fn opt_view(o: Option<String>) -> Option<Seq<char>> {
    match o {
        Some(s) => Some(s@),
        None => None,
    }
}

/// The category filter that a query value stands for: `None` for no filter,
/// which an absent value and the value "all" both mean.
pub open spec fn filter_of(category: Option<Seq<char>>) -> Option<Seq<char>> {
    match category {
        Some(c) => if c == ALL_CATEGORIES@ { None } else { Some(c) },
        None => None,
    }
}

/// The category under which a created task is stored.
pub open spec fn stored_category(category: Seq<char>) -> Seq<char> {
    if category.len() == 0 { DEFAULT_CATEGORY@ } else { category }
}

/// The category filter that an optional query value stands for: `None` when
/// the value is absent or is "all", else the value itself.
pub fn category_filter(category: Option<String>) -> (r: Option<String>)
    ensures
        opt_view(r) == filter_of(opt_view(category)),
{
    match category {
        Some(c) => {
            let all = String::from_str(ALL_CATEGORIES);
            if c == all {
                None
            } else {
                Some(c)
            }
        },
        None => None,
    }
}

/// The integer that the table's `completed` column holds for a flag.
pub fn stored_flag(completed: bool) -> (r: i8)
    ensures
        r == (if completed { 1i8 } else { 0i8 }),
{
    if completed {
        1
    } else {
        0
    }
}

} // verus!
