use vstd::prelude::*;
use vstd::string::StringExecFns;
use crate::text::{like_of, like_pattern};
use crate::models::{
    category_filter, filter_of, opt_view, stored_category, stored_flag, FetchQuery, SearchQuery, Todo,
    TodoView, DEFAULT_CATEGORY,
};

verus! {

/// The one SQL statement that a request runs against the `todo` table.
pub enum Statement {
    /// Insert a row; the store assigns its identifier.
    Insert { title: String, completed: bool, category: String },
    /// Select every row, or those whose category equals the filter.
    Select { category: Option<String> },
    /// Overwrite the mutable fields of the row with this identifier.
    Update { id: i32, title: String, completed: bool, category: String },
    /// Remove the row with this identifier.
    Delete { id: i32 },
    /// Select the rows whose title contains `query`, restricted to a category
    /// when one is given.
    Search { query: String, category: Option<String> },
    /// Select the distinct categories of all rows.
    SelectCategories,
}

/// A value bound to a `?` placeholder of a SQL text.
pub enum SqlArg {
    Text(String),
    Int(i32),
    Flag(i8),
}

/// The text of a bound value, where it is one.
pub open spec fn arg_text(a: SqlArg) -> Option<Seq<char>> {
    match a {
        SqlArg::Text(s) => Some(s@),
        _ => None,
    }
}

/// The columns read by every selection of records.
pub open spec fn select_head() -> Seq<char> {
    "SELECT id, title, completed, category FROM todo"@
}

/// The SQL text of a statement and the values bound to its placeholders, in
/// order. The search pattern is the query between two `%`.
pub fn statement_sql(stmt: Statement) -> (r: (String, Vec<SqlArg>))
    ensures
        match stmt {
            Statement::Insert { title, completed, category } => {
                &&& r.0@ == "INSERT INTO todo (title, completed, category) VALUES (?, ?, ?)"@
                &&& r.1@.len() == 3
                &&& arg_text(r.1@[0]) == Some(title@)
                &&& r.1@[1] == SqlArg::Flag(if completed { 1i8 } else { 0i8 })
                &&& arg_text(r.1@[2]) == Some(category@)
            },
            Statement::Select { category: None } => r.0@ == select_head() && r.1@.len() == 0,
            Statement::Select { category: Some(c) } => {
                &&& r.0@ == select_head() + " WHERE category = ?"@
                &&& r.1@.len() == 1
                &&& arg_text(r.1@[0]) == Some(c@)
            },
            Statement::Update { id, title, completed, category } => {
                &&& r.0@ == "UPDATE todo SET title = ?, completed = ?, category = ? WHERE id = ?"@
                &&& r.1@.len() == 4
                &&& arg_text(r.1@[0]) == Some(title@)
                &&& r.1@[1] == SqlArg::Flag(if completed { 1i8 } else { 0i8 })
                &&& arg_text(r.1@[2]) == Some(category@)
                &&& r.1@[3] == SqlArg::Int(id)
            },
            Statement::Delete { id } => {
                &&& r.0@ == "DELETE FROM todo WHERE id = ?"@
                &&& r.1@.len() == 1
                &&& r.1@[0] == SqlArg::Int(id)
            },
            Statement::Search { query, category: None } => {
                &&& r.0@ == select_head() + " WHERE title LIKE ?"@
                &&& r.1@.len() == 1
                &&& arg_text(r.1@[0]) == Some(like_of(query@))
            },
            Statement::Search { query, category: Some(c) } => {
                &&& r.0@ == select_head() + " WHERE title LIKE ? AND category = ?"@
                &&& r.1@.len() == 2
                &&& arg_text(r.1@[0]) == Some(like_of(query@))
                &&& arg_text(r.1@[1]) == Some(c@)
            },
            Statement::SelectCategories => {
                &&& r.0@ == "SELECT DISTINCT category FROM todo"@
                &&& r.1@.len() == 0
            },
        },
{
    let mut args: Vec<SqlArg> = Vec::new();
    match stmt {
        Statement::Insert { title, completed, category } => {
            args.push(SqlArg::Text(title));
            args.push(SqlArg::Flag(stored_flag(completed)));
            args.push(SqlArg::Text(category));
            (String::from_str("INSERT INTO todo (title, completed, category) VALUES (?, ?, ?)"), args)
        },
        Statement::Select { category } => {
            let mut sql = String::from_str("SELECT id, title, completed, category FROM todo");
            match category {
                Some(c) => {
                    sql.append(" WHERE category = ?");
                    args.push(SqlArg::Text(c));
                },
                None => {},
            }
            (sql, args)
        },
        Statement::Update { id, title, completed, category } => {
            args.push(SqlArg::Text(title));
            args.push(SqlArg::Flag(stored_flag(completed)));
            args.push(SqlArg::Text(category));
            args.push(SqlArg::Int(id));
            (
                String::from_str(
                    "UPDATE todo SET title = ?, completed = ?, category = ? WHERE id = ?",
                ),
                args,
            )
        },
        Statement::Delete { id } => {
            args.push(SqlArg::Int(id));
            (String::from_str("DELETE FROM todo WHERE id = ?"), args)
        },
        Statement::Search { query, category } => {
            let mut sql = String::from_str("SELECT id, title, completed, category FROM todo");
            args.push(SqlArg::Text(like_pattern(query.as_str())));
            match category {
                Some(c) => {
                    sql.append(" WHERE title LIKE ? AND category = ?");
                    args.push(SqlArg::Text(c));
                },
                None => {
                    sql.append(" WHERE title LIKE ?");
                },
            }
            (sql, args)
        },
        Statement::SelectCategories => (String::from_str("SELECT DISTINCT category FROM todo"), args),
    }
}

/// The six operations of the service.
#[derive(PartialEq, Eq, Structural, Clone, Copy, Debug)]
pub enum Operation {
    Create,
    List,
    Update,
    Delete,
    Search,
    Categories,
}

/// What a statement gave back when the store ran it.
pub enum Outcome {
    /// A write that returns no rows.
    Written,
    /// The selected records, in storage order.
    Rows(Vec<Todo>),
    /// The selected category labels.
    Labels(Vec<String>),
}

/// A failure of the store; `detail` is for the diagnostic log only.
pub struct StoreError {
    pub detail: String,
}

/// The body of a response.
pub enum Body {
    Text(String),
    Todos(Vec<Todo>),
    Categories(Vec<String>),
}

/// An HTTP response: a status code and a body.
pub struct Response {
    pub status: u16,
    pub body: Body,
}

pub const STATUS_OK: u16 = 200;

pub const STATUS_CREATED: u16 = 201;

pub const STATUS_SERVER_ERROR: u16 = 500;

impl Statement {
    /// The operation that a statement serves.
    pub open spec fn spec_operation(&self) -> Operation {
        match self {
            Statement::Insert { .. } => Operation::Create,
            Statement::Select { .. } => Operation::List,
            Statement::Update { .. } => Operation::Update,
            Statement::Delete { .. } => Operation::Delete,
            Statement::Search { .. } => Operation::Search,
            Statement::SelectCategories => Operation::Categories,
        }
    }

    #[verifier::when_used_as_spec(spec_operation)]
    pub fn operation(&self) -> (r: Operation)
        ensures
            r == self.spec_operation(),
    {
        match self {
            Statement::Insert { .. } => Operation::Create,
            Statement::Select { .. } => Operation::List,
            Statement::Update { .. } => Operation::Update,
            Statement::Delete { .. } => Operation::Delete,
            Statement::Search { .. } => Operation::Search,
            Statement::SelectCategories => Operation::Categories,
        }
    }
}

/// `s` inserts the payload `t`: its title and flag, and its category, or the
/// default label when that is empty.
pub open spec fn create_plan(t: TodoView, s: Statement) -> bool {
    s matches Statement::Insert { title, completed, category } && title@ == t.title && completed
        == t.completed && category@ == stored_category(t.category)
}

/// `s` lists the rows under the category filter that the query value stands
/// for.
pub open spec fn list_plan(category: Option<Seq<char>>, s: Statement) -> bool {
    s matches Statement::Select { category: filter } && opt_view(filter) == filter_of(category)
}

/// `s` overwrites the row `id` with the title, flag and category of `t`.
pub open spec fn update_plan(id: i32, t: TodoView, s: Statement) -> bool {
    s matches Statement::Update { id: target, title, completed, category } && target == id
        && title@ == t.title && completed == t.completed && category@ == t.category
}

/// `s` searches titles for `query` under the category filter that the query
/// value stands for.
pub open spec fn search_plan(query: Seq<char>, category: Option<Seq<char>>, s: Statement) -> bool {
    s matches Statement::Search { query: text, category: filter } && text@ == query && opt_view(
        filter,
    ) == filter_of(category)
}

/// Plans the insert of a new task. The identifier of the payload is ignored;
/// an empty category is replaced by the default label.
pub fn create_todo(new_todo: Todo) -> (s: Statement)
    ensures
        create_plan(new_todo@, s),
{
    let category = if new_todo.category.as_str().is_empty() {
        String::from_str(DEFAULT_CATEGORY)
    } else {
        new_todo.category
    };
    Statement::Insert { title: new_todo.title, completed: new_todo.completed, category }
}

/// Plans the listing of tasks, filtered by category unless the filter is
/// absent or "all".
pub fn get_all_todos(query: FetchQuery) -> (s: Statement)
    ensures
        list_plan(opt_view(query.category), s),
{
    Statement::Select { category: category_filter(query.category) }
}

/// Plans the update of every mutable field of the task `id` from the payload;
/// its identifier is ignored and its category is stored as it is.
pub fn update_todo(id: i32, todo: Todo) -> (s: Statement)
    ensures
        update_plan(id, todo@, s),
{
    Statement::Update { id, title: todo.title, completed: todo.completed, category: todo.category }
}

/// Plans the removal of the task `id`.
pub fn delete_todo(id: i32) -> (s: Statement)
    ensures
        s == (Statement::Delete { id }),
{
    Statement::Delete { id }
}

/// Plans a search of titles for the query text, filtered by category unless
/// the filter is absent or "all".
pub fn search_todos(query: SearchQuery) -> (s: Statement)
    ensures
        search_plan(query.query@, opt_view(query.category), s),
{
    Statement::Search { query: query.query, category: category_filter(query.category) }
}

/// Plans the listing of the distinct categories.
pub fn get_all_categories() -> (s: Statement)
    ensures
        s == Statement::SelectCategories,
{
    Statement::SelectCategories
}

/// The status of a successful response to an operation.
pub open spec fn success_status(op: Operation) -> u16 {
    if op == Operation::Create {
        STATUS_CREATED
    } else {
        STATUS_OK
    }
}

/// The text of a successful response to a write; the other operations
/// answer with values, not text.
pub open spec fn success_message(op: Operation) -> Seq<char> {
    match op {
        Operation::Create => "Todo created successfully"@,
        Operation::Update => "Todo updated successfully"@,
        Operation::Delete => "Todo deleted successfully"@,
        Operation::List | Operation::Search | Operation::Categories => Seq::empty(),
    }
}

/// The text of the response to a failed operation.
pub open spec fn failure_message(op: Operation) -> Seq<char> {
    match op {
        Operation::Create => "Failed to create todo"@,
        Operation::List => "Failed to fetch todos"@,
        Operation::Update => "Failed to update todo"@,
        Operation::Delete => "Failed to delete todo"@,
        Operation::Search => "Failed to search todos"@,
        Operation::Categories => "Failed to fetch categories"@,
    }
}

/// The outcome is a success of the shape that the operation gives.
pub open spec fn succeeded(op: Operation, result: Result<Outcome, StoreError>) -> bool {
    match result {
        Ok(Outcome::Written) => op == Operation::Create || op == Operation::Update || op
            == Operation::Delete,
        Ok(Outcome::Rows(_)) => op == Operation::List || op == Operation::Search,
        Ok(Outcome::Labels(_)) => op == Operation::Categories,
        Err(_) => false,
    }
}

/// The text of a text body.
pub open spec fn body_text(b: Body) -> Option<Seq<char>> {
    match b {
        Body::Text(t) => Some(t@),
        _ => None,
    }
}

/// The body hands on what the outcome gave: the confirmation text of the
/// operation for a write, the selected values themselves for a selection.
pub open spec fn carries(op: Operation, result: Result<Outcome, StoreError>, body: Body) -> bool {
    match result {
        Ok(Outcome::Written) => body_text(body) == Some(success_message(op)),
        Ok(Outcome::Rows(v)) => body == Body::Todos(v),
        Ok(Outcome::Labels(v)) => body == Body::Categories(v),
        Err(_) => true,
    }
}

fn failure_text(op: Operation) -> (r: String)
    ensures
        r@ == failure_message(op),
{
    match op {
        Operation::Create => String::from_str("Failed to create todo"),
        Operation::List => String::from_str("Failed to fetch todos"),
        Operation::Update => String::from_str("Failed to update todo"),
        Operation::Delete => String::from_str("Failed to delete todo"),
        Operation::Search => String::from_str("Failed to search todos"),
        Operation::Categories => String::from_str("Failed to fetch categories"),
    }
}

/// The response to an operation whose statement gave `result`: the success
/// status with the confirmation text or the selected values, or a server
/// error with a fixed text when the store failed (or answered with a shape
/// that the operation does not give).
pub fn respond(op: Operation, result: Result<Outcome, StoreError>) -> (r: Response)
    ensures
        succeeded(op, result) ==> r.status == success_status(op),
        succeeded(op, result) ==> carries(op, result, r.body),
        !succeeded(op, result) ==> r.status == STATUS_SERVER_ERROR && body_text(r.body) == Some(
            failure_message(op),
        ),
{
    match result {
        Ok(Outcome::Written) => {
            match op {
                Operation::Create => Response {
                    status: STATUS_CREATED,
                    body: Body::Text(String::from_str("Todo created successfully")),
                },
                Operation::Update => Response {
                    status: STATUS_OK,
                    body: Body::Text(String::from_str("Todo updated successfully")),
                },
                Operation::Delete => Response {
                    status: STATUS_OK,
                    body: Body::Text(String::from_str("Todo deleted successfully")),
                },
                _ => Response { status: STATUS_SERVER_ERROR, body: Body::Text(failure_text(op)) },
            }
        },
        Ok(Outcome::Rows(v)) => {
            if op == Operation::List || op == Operation::Search {
                Response { status: STATUS_OK, body: Body::Todos(v) }
            } else {
                Response { status: STATUS_SERVER_ERROR, body: Body::Text(failure_text(op)) }
            }
        },
        Ok(Outcome::Labels(v)) => {
            if op == Operation::Categories {
                Response { status: STATUS_OK, body: Body::Categories(v) }
            } else {
                Response { status: STATUS_SERVER_ERROR, body: Body::Text(failure_text(op)) }
            }
        },
        Err(_) => Response { status: STATUS_SERVER_ERROR, body: Body::Text(failure_text(op)) },
    }
}

} // verus!
