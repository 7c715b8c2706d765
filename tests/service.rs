use todo_backend::handlers::{
    create_todo, delete_todo, get_all_categories, get_all_todos, respond, search_todos,
    statement_sql, update_todo, Body, Operation, Outcome, SqlArg, Statement, StoreError,
    STATUS_CREATED, STATUS_OK, STATUS_SERVER_ERROR,
};
use todo_backend::models::{category_filter, stored_flag, FetchQuery, SearchQuery, Todo};
use todo_backend::store::MemStore;

fn payload(title: &str, completed: bool, category: &str) -> Todo {
    Todo { id: None, title: title.to_string(), completed, category: category.to_string() }
}

fn rows(store: &mut MemStore, category: Option<&str>) -> Vec<Todo> {
    let stmt = get_all_todos(FetchQuery { category: category.map(|c| c.to_string()) });
    match store.execute(stmt) {
        Ok(Outcome::Rows(v)) => v,
        _ => panic!("listing failed"),
    }
}

fn create(store: &mut MemStore, title: &str, completed: bool, category: &str) {
    let r = store.execute(create_todo(payload(title, completed, category)));
    assert!(matches!(r, Ok(Outcome::Written)));
}

#[test]
fn create_with_empty_category_stores_default() {
    match create_todo(payload("Test", false, "")) {
        Statement::Insert { title, completed, category } => {
            assert_eq!(title, "Test");
            assert!(!completed);
            assert_eq!(category, "default");
        }
        _ => panic!("not an insert"),
    }
    let mut store = MemStore::new();
    create(&mut store, "Test", false, "");
    let all = rows(&mut store, None);
    assert_eq!(all.len(), 1);
    assert_eq!(all[0].category, "default");
}

#[test]
fn create_keeps_non_empty_category() {
    let mut store = MemStore::new();
    create(&mut store, "Read", true, "home");
    let all = rows(&mut store, None);
    assert_eq!(all[0].category, "home");
    assert!(all[0].completed);
}

#[test]
fn create_ignores_payload_id() {
    let mut store = MemStore::new();
    let mut t = payload("A", false, "x");
    t.id = Some(99);
    assert!(matches!(store.execute(create_todo(t)), Ok(Outcome::Written)));
    assert_eq!(rows(&mut store, None)[0].id, Some(1));
}

#[test]
fn unfiltered_listing_holds_every_insert_with_its_id() {
    let mut store = MemStore::new();
    create(&mut store, "one", false, "a");
    create(&mut store, "two", true, "b");
    create(&mut store, "three", false, "a");
    let all = rows(&mut store, None);
    let ids: Vec<Option<i32>> = all.iter().map(|t| t.id).collect();
    assert_eq!(ids, vec![Some(1), Some(2), Some(3)]);
    let titles: Vec<&str> = all.iter().map(|t| t.title.as_str()).collect();
    assert_eq!(titles, vec!["one", "two", "three"]);
}

#[test]
fn listing_by_category_is_exact() {
    let mut store = MemStore::new();
    create(&mut store, "one", false, "work");
    create(&mut store, "two", false, "home");
    create(&mut store, "three", false, "workshop");
    let work = rows(&mut store, Some("work"));
    assert_eq!(work.len(), 1);
    assert_eq!(work[0].title, "one");
    assert!(rows(&mut store, Some("garden")).is_empty());
}

#[test]
fn listing_all_is_unfiltered() {
    let mut store = MemStore::new();
    create(&mut store, "one", false, "work");
    create(&mut store, "two", false, "home");
    assert_eq!(rows(&mut store, Some("all")).len(), 2);
    assert_eq!(rows(&mut store, None).len(), 2);
    assert!(category_filter(Some("all".to_string())).is_none());
    assert!(category_filter(None).is_none());
    assert_eq!(category_filter(Some("All".to_string())), Some("All".to_string()));
}

#[test]
fn update_then_fetch_reflects_payload() {
    let mut store = MemStore::new();
    create(&mut store, "old", false, "work");
    create(&mut store, "other", false, "home");
    let r = store.execute(update_todo(1, payload("new", true, "")));
    assert!(matches!(r, Ok(Outcome::Written)));
    let all = rows(&mut store, None);
    assert_eq!(all[0].id, Some(1));
    assert_eq!(all[0].title, "new");
    assert!(all[0].completed);
    assert_eq!(all[0].category, "");
    assert_eq!(all[1].title, "other");
}

#[test]
fn update_of_missing_id_succeeds_and_changes_nothing() {
    let mut store = MemStore::new();
    create(&mut store, "only", false, "work");
    let r = store.execute(update_todo(42, payload("x", true, "y")));
    assert!(matches!(r, Ok(Outcome::Written)));
    let resp = respond(Operation::Update, r);
    assert_eq!(resp.status, STATUS_OK);
    let all = rows(&mut store, None);
    assert_eq!(all.len(), 1);
    assert_eq!(all[0].title, "only");
}

#[test]
fn delete_removes_and_is_idempotent() {
    let mut store = MemStore::new();
    create(&mut store, "a", false, "work");
    create(&mut store, "b", false, "work");
    assert!(matches!(store.execute(delete_todo(1)), Ok(Outcome::Written)));
    let all = rows(&mut store, None);
    assert_eq!(all.len(), 1);
    assert_eq!(all[0].id, Some(2));
    let again = store.execute(delete_todo(1));
    assert_eq!(respond(Operation::Delete, again).status, STATUS_OK);
    assert_eq!(rows(&mut store, None).len(), 1);
}

#[test]
fn search_returns_titles_containing_query() {
    let mut store = MemStore::new();
    create(&mut store, "Buy milk", false, "home");
    create(&mut store, "Call mom", false, "home");
    let stmt = search_todos(SearchQuery { query: "milk".to_string(), category: None });
    match store.execute(stmt) {
        Ok(Outcome::Rows(v)) => {
            assert_eq!(v.len(), 1);
            assert_eq!(v[0].title, "Buy milk");
        }
        _ => panic!("search failed"),
    }
}

#[test]
fn search_with_category_restricts() {
    let mut store = MemStore::new();
    create(&mut store, "Buy milk", false, "home");
    create(&mut store, "milk report", false, "work");
    let stmt = search_todos(SearchQuery {
        query: "milk".to_string(),
        category: Some("work".to_string()),
    });
    match store.execute(stmt) {
        Ok(Outcome::Rows(v)) => {
            assert_eq!(v.len(), 1);
            assert_eq!(v[0].title, "milk report");
        }
        _ => panic!("search failed"),
    }
    let all = search_todos(SearchQuery { query: "".to_string(), category: Some("all".to_string()) });
    match store.execute(all) {
        Ok(Outcome::Rows(v)) => assert_eq!(v.len(), 2),
        _ => panic!("search failed"),
    }
}

#[test]
fn categories_are_distinct() {
    let mut store = MemStore::new();
    create(&mut store, "a", false, "work");
    create(&mut store, "b", false, "home");
    create(&mut store, "c", false, "work");
    match store.execute(get_all_categories()) {
        Ok(Outcome::Labels(v)) => assert_eq!(v, vec!["work".to_string(), "home".to_string()]),
        _ => panic!("categories failed"),
    }
}

#[test]
fn create_then_list_scenario() {
    let mut store = MemStore::new();
    let stmt = create_todo(payload("Test", false, ""));
    let op = stmt.operation();
    let resp = respond(op, store.execute(stmt));
    assert_eq!(resp.status, STATUS_CREATED);
    match resp.body {
        Body::Text(t) => assert_eq!(t, "Todo created successfully"),
        _ => panic!("not text"),
    }
    let stmt = get_all_todos(FetchQuery { category: None });
    let resp = respond(Operation::List, store.execute(stmt));
    assert_eq!(resp.status, STATUS_OK);
    match resp.body {
        Body::Todos(v) => {
            assert!(v.iter().any(|t| t.title == "Test" && !t.completed && t.category == "default"))
        }
        _ => panic!("not a list"),
    }
}

#[test]
fn store_failure_gives_server_error() {
    let cases = [
        (Operation::Create, "Failed to create todo"),
        (Operation::List, "Failed to fetch todos"),
        (Operation::Update, "Failed to update todo"),
        (Operation::Delete, "Failed to delete todo"),
        (Operation::Search, "Failed to search todos"),
        (Operation::Categories, "Failed to fetch categories"),
    ];
    for (op, text) in cases {
        let resp = respond(op, Err(StoreError { detail: "connection lost".to_string() }));
        assert_eq!(resp.status, STATUS_SERVER_ERROR);
        match resp.body {
            Body::Text(t) => assert_eq!(t, text),
            _ => panic!("not text"),
        }
    }
}

#[test]
fn write_responses_carry_confirmation() {
    let r = respond(Operation::Update, Ok(Outcome::Written));
    assert_eq!(r.status, STATUS_OK);
    assert!(matches!(r.body, Body::Text(ref t) if t == "Todo updated successfully"));
    let r = respond(Operation::Delete, Ok(Outcome::Written));
    assert!(matches!(r.body, Body::Text(ref t) if t == "Todo deleted successfully"));
    let r = respond(Operation::Categories, Ok(Outcome::Labels(vec!["a".to_string()])));
    assert!(matches!(r.body, Body::Categories(ref v) if v.len() == 1));
}

#[test]
fn mismatched_outcome_is_server_error() {
    let r = respond(Operation::List, Ok(Outcome::Written));
    assert_eq!(r.status, STATUS_SERVER_ERROR);
}

#[test]
fn statements_carry_their_operation() {
    assert_eq!(get_all_categories().operation(), Operation::Categories);
    assert_eq!(delete_todo(3).operation(), Operation::Delete);
    assert!(matches!(delete_todo(3), Statement::Delete { id: 3 }));
    assert_eq!(update_todo(3, payload("a", false, "")).operation(), Operation::Update);
}

#[test]
fn completed_flag_is_zero_or_one() {
    assert_eq!(stored_flag(true), 1);
    assert_eq!(stored_flag(false), 0);
}

fn search_titles(store: &mut MemStore, query: &str) -> Vec<String> {
    let stmt = search_todos(SearchQuery { query: query.to_string(), category: None });
    match store.execute(stmt) {
        Ok(Outcome::Rows(v)) => v.into_iter().map(|t| t.title).collect(),
        _ => panic!("search failed"),
    }
}

#[test]
fn search_wildcards_keep_pattern_meaning() {
    let mut store = MemStore::new();
    create(&mut store, "ab", false, "x");
    assert_eq!(search_titles(&mut store, "_"), vec!["ab".to_string()]);
    assert_eq!(search_titles(&mut store, "%"), vec!["ab".to_string()]);
    assert_eq!(search_titles(&mut store, "a_"), vec!["ab".to_string()]);
    assert!(search_titles(&mut store, "a_b").is_empty());
    create(&mut store, "50% off", false, "x");
    assert_eq!(search_titles(&mut store, "\\%"), vec!["50% off".to_string()]);
    assert!(search_titles(&mut store, "AB").is_empty());
}

fn texts(args: &[SqlArg]) -> Vec<String> {
    args.iter()
        .map(|a| match a {
            SqlArg::Text(s) => s.clone(),
            SqlArg::Int(i) => format!("int {}", i),
            SqlArg::Flag(f) => format!("flag {}", f),
        })
        .collect()
}

#[test]
fn statements_become_sql() {
    let (sql, args) = statement_sql(create_todo(payload("Test", true, "")));
    assert_eq!(sql, "INSERT INTO todo (title, completed, category) VALUES (?, ?, ?)");
    assert_eq!(texts(&args), vec!["Test", "flag 1", "default"]);
    let (sql, args) = statement_sql(get_all_todos(FetchQuery { category: Some("all".to_string()) }));
    assert_eq!(sql, "SELECT id, title, completed, category FROM todo");
    assert!(args.is_empty());
    let (sql, args) = statement_sql(get_all_todos(FetchQuery { category: Some("work".to_string()) }));
    assert_eq!(sql, "SELECT id, title, completed, category FROM todo WHERE category = ?");
    assert_eq!(texts(&args), vec!["work"]);
    let (sql, args) = statement_sql(update_todo(7, payload("a", false, "b")));
    assert_eq!(sql, "UPDATE todo SET title = ?, completed = ?, category = ? WHERE id = ?");
    assert_eq!(texts(&args), vec!["a", "flag 0", "b", "int 7"]);
    let (sql, args) = statement_sql(delete_todo(9));
    assert_eq!(sql, "DELETE FROM todo WHERE id = ?");
    assert_eq!(texts(&args), vec!["int 9"]);
    let (sql, args) = statement_sql(search_todos(SearchQuery { query: "milk".to_string(), category: None }));
    assert_eq!(sql, "SELECT id, title, completed, category FROM todo WHERE title LIKE ?");
    assert_eq!(texts(&args), vec!["%milk%"]);
    let (sql, args) = statement_sql(search_todos(SearchQuery {
        query: "milk".to_string(),
        category: Some("home".to_string()),
    }));
    assert_eq!(
        sql,
        "SELECT id, title, completed, category FROM todo WHERE title LIKE ? AND category = ?"
    );
    assert_eq!(texts(&args), vec!["%milk%", "home"]);
    let (sql, args) = statement_sql(get_all_categories());
    assert_eq!(sql, "SELECT DISTINCT category FROM todo");
    assert!(args.is_empty());
}
