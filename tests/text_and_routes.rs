use todo_backend::handlers::Operation;
use todo_backend::routers::{parse_id, resolve, todo_routes, Method, Target, SCOPE};
use todo_backend::text::{chars_of, like_match, like_pattern};

#[test]
fn like_pattern_wraps_query() {
    assert_eq!(like_pattern("milk"), "%milk%");
    assert_eq!(like_pattern(""), "%%");
    assert_eq!(like_pattern("50%"), "%50%%");
}

fn like(p: &str, t: &str) -> bool {
    like_match(&chars_of(p), &chars_of(t))
}

#[test]
fn like_patterns_match_as_mysql_reads_them() {
    assert!(like("%milk%", "Buy milk"));
    assert!(!like("%milk%", "Call mom"));
    assert!(like("%%", ""));
    assert!(like("%_%", "ab"));
    assert!(!like("%_%", ""));
    assert!(like("a_c", "abc"));
    assert!(!like("a_c", "abbc"));
    assert!(like("a%c", "abbc"));
    assert!(!like("abc", "ab"));
    assert!(like("%\\%%", "50% off"));
    assert!(!like("%\\%%", "50 off"));
    assert!(like("%\\_%", "a_b"));
    assert!(!like("%\\_%", "ab"));
    assert!(like("ab\\", "ab\\"));
    assert!(!like("%Milk%", "Buy milk"));
    assert!(like("%牛奶%", "买牛奶"));
    assert_eq!(chars_of("é1"), vec!['é', '1']);
}

#[test]
fn identifiers_parse_as_i32() {
    assert_eq!(parse_id("42"), Some(42));
    assert_eq!(parse_id("-7"), Some(-7));
    assert_eq!(parse_id("+007"), Some(7));
    assert_eq!(parse_id("2147483647"), Some(2147483647));
    assert_eq!(parse_id("-2147483648"), Some(-2147483648));
    assert_eq!(parse_id("2147483648"), None);
    assert_eq!(parse_id("99999999999999999999"), None);
    assert_eq!(parse_id("abc"), None);
    assert_eq!(parse_id("12a"), None);
    assert_eq!(parse_id(""), None);
    assert_eq!(parse_id("-"), None);
}

#[test]
fn route_table_lines() {
    let table = todo_routes();
    assert_eq!(table.len(), 6);
    assert_eq!(table[0].path, "/");
    assert_eq!(table[0].method, Method::Get);
    assert_eq!(table[3].path, "/{id}");
    assert_eq!(table[3].operation, Operation::Update);
    assert_eq!(SCOPE, "/api/todos");
}

#[test]
fn requests_resolve_to_operations() {
    let t = |op: Operation, id: Option<i32>| Some(Target { operation: op, id });
    assert_eq!(resolve(Method::Get, "/api/todos/"), t(Operation::List, None));
    assert_eq!(resolve(Method::Post, "/api/todos/"), t(Operation::Create, None));
    assert_eq!(resolve(Method::Get, "/api/todos/search"), t(Operation::Search, None));
    assert_eq!(resolve(Method::Get, "/api/todos/categories"), t(Operation::Categories, None));
    assert_eq!(resolve(Method::Put, "/api/todos/5"), t(Operation::Update, Some(5)));
    assert_eq!(resolve(Method::Delete, "/api/todos/5"), t(Operation::Delete, Some(5)));
    assert_eq!(resolve(Method::Put, "/api/todos/abc"), None);
    assert_eq!(resolve(Method::Delete, "/api/todos/"), None);
    assert_eq!(resolve(Method::Get, "/api/todos/5"), None);
    assert_eq!(resolve(Method::Other, "/api/todos/"), None);
    assert_eq!(resolve(Method::Get, "/api/other/"), None);
}
