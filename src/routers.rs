use vstd::prelude::*;
use vstd::string::{StrSliceExecFns, StringExecFns};
use crate::handlers::Operation;

verus! {

/// The path under which every route of the service is mounted.
pub const SCOPE: &'static str = "/api/todos";

/// The HTTP methods that the routes tell apart.
#[derive(PartialEq, Eq, Structural, Clone, Copy, Debug)]
pub enum Method {
    Get,
    Post,
    Put,
    Delete,
    Other,
}

/// One line of the route table: a method, a path below the scope, and the
/// operation that serves them. `{id}` in a path is an identifier segment.
pub struct RouteEntry {
    pub method: Method,
    pub path: &'static str,
    pub operation: Operation,
}

/// Where a request goes: an operation and, for the routes with an
/// identifier segment, the identifier.
#[derive(PartialEq, Eq, Structural, Clone, Copy, Debug)]
pub struct Target {
    pub operation: Operation,
    pub id: Option<i32>,
}

/// The route table of the service, in the order in which routes are tried.
pub fn todo_routes() -> (r: Vec<RouteEntry>)
    ensures
        r@.len() == 6,
        r@[0].method == Method::Get && r@[0].path@ == "/"@ && r@[0].operation == Operation::List,
        r@[1].method == Method::Post && r@[1].path@ == "/"@ && r@[1].operation == Operation::Create,
        r@[2].method == Method::Get && r@[2].path@ == "/search"@ && r@[2].operation
            == Operation::Search,
        r@[3].method == Method::Put && r@[3].path@ == "/{id}"@ && r@[3].operation
            == Operation::Update,
        r@[4].method == Method::Delete && r@[4].path@ == "/{id}"@ && r@[4].operation
            == Operation::Delete,
        r@[5].method == Method::Get && r@[5].path@ == "/categories"@ && r@[5].operation
            == Operation::Categories,
{
    let mut r: Vec<RouteEntry> = Vec::new();
    r.push(RouteEntry { method: Method::Get, path: "/", operation: Operation::List });
    r.push(RouteEntry { method: Method::Post, path: "/", operation: Operation::Create });
    r.push(RouteEntry { method: Method::Get, path: "/search", operation: Operation::Search });
    r.push(RouteEntry { method: Method::Put, path: "/{id}", operation: Operation::Update });
    r.push(RouteEntry { method: Method::Delete, path: "/{id}", operation: Operation::Delete });
    r.push(RouteEntry { method: Method::Get, path: "/categories", operation: Operation::Categories });
    r
}

/// The value of a run of decimal digits.
pub open spec fn digits_value(d: Seq<char>) -> int
    decreases d.len(),
{
    if d.len() == 0 {
        0
    } else {
        digits_value(d.drop_last()) * 10 + (d.last() as int - '0' as int)
    }
}

/// Every character is an ASCII decimal digit.
pub open spec fn all_digits(d: Seq<char>) -> bool {
    forall|i: int| 0 <= i < d.len() ==> '0' <= #[trigger] d[i] <= '9'
}

/// The identifier that a path segment denotes: an optional sign and at least
/// one decimal digit, whose value fits in `i32`.
pub open spec fn parsed_id(s: Seq<char>) -> Option<i32> {
    let signed = s.len() > 0 && (s[0] == '-' || s[0] == '+');
    let negative = s.len() > 0 && s[0] == '-';
    let d = if signed { s.drop_first() } else { s };
    let v = if negative { -digits_value(d) } else { digits_value(d) };
    if d.len() > 0 && all_digits(d) && i32::MIN <= v <= i32::MAX {
        Some(v as i32)
    } else {
        None
    }
}

proof fn lemma_digits_nonneg(d: Seq<char>)
    requires
        all_digits(d),
    ensures
        0 <= digits_value(d),
    decreases d.len(),
{
    if d.len() > 0 {
        assert(all_digits(d.drop_last())) by {
            assert forall|i: int| 0 <= i < d.drop_last().len() implies '0' <= #[trigger] d.drop_last()[i] <= '9' by {
                assert(d.drop_last()[i] == d[i]);
            }
        }
        lemma_digits_nonneg(d.drop_last());
        assert('0' <= d[d.len() - 1] <= '9');
    }
}

/// Reads an identifier segment as the routing layer does.
pub fn parse_id(s: &str) -> (r: Option<i32>)
    ensures
        r == parsed_id(s@),
{
    let c = crate::text::chars_of(s);
    let n = c.len();
    let mut start: usize = 0;
    let mut negative = false;
    if n > 0 && (c[0] == '-' || c[0] == '+') {
        start = 1;
        negative = c[0] == '-';
    }
    let ghost d = if start == 1 { s@.drop_first() } else { s@ };
    assert(d =~= c@.subrange(start as int, n as int));
    if start == n {
        return None;
    }
    let limit: i64 = 2147483648;
    let mut acc: i64 = 0;
    let mut too_large = false;
    let mut i: usize = start;
    while i < n
        invariant
            c@ == s@,
            n == c@.len(),
            start <= i <= n,
            d == c@.subrange(start as int, n as int),
            d == (if start == 1 { s@.drop_first() } else { s@ }),
            start == 1 <==> (s@.len() > 0 && (s@[0] == '-' || s@[0] == '+')),
            start == 0 || start == 1,
            negative == (s@.len() > 0 && s@[0] == '-'),
            forall|j: int| start <= j < i ==> '0' <= #[trigger] c@[j] <= '9',
            0 <= acc <= limit,
            limit == 2147483648,
            !too_large ==> acc == digits_value(d.subrange(0, i - start)) && acc <= limit,
            too_large ==> digits_value(d.subrange(0, i - start)) > limit,
        decreases n - i,
    {
        let ch = c[i];
        if ch < '0' || ch > '9' {
            assert(d[i - start] == ch);
            assert(!all_digits(d));
            return None;
        }
        let ghost prefix = d.subrange(0, i - start + 1);
        assert(prefix.drop_last() =~= d.subrange(0, i - start));
        assert(prefix.last() == ch);
        proof {
            assert(all_digits(d.subrange(0, i - start))) by {
                assert forall|j: int| 0 <= j < i - start implies '0' <= #[trigger] d.subrange(0, i - start)[j] <= '9' by {
                    assert(d.subrange(0, i - start)[j] == c@[start + j]);
                }
            }
            lemma_digits_nonneg(d.subrange(0, i - start));
        }
        if !too_large {
            let v = acc * 10 + (ch as i64 - '0' as i64);
            if v > limit {
                too_large = true;
            } else {
                acc = v;
            }
        }
        i = i + 1;
    }
    assert(d.subrange(0, n - start) =~= d);
    assert(all_digits(d)) by {
        assert forall|j: int| 0 <= j < d.len() implies '0' <= #[trigger] d[j] <= '9' by {
            assert(d[j] == c@[start + j]);
        }
    }
    if too_large {
        return None;
    }
    let v = if negative { -acc } else { acc };
    if v < -2147483648 || v > 2147483647 {
        return None;
    }
    Some(v as i32)
}

/// The target of a request with `method` on `path`, or `None` where no route
/// of the table matches (a non-numeric identifier segment matches none).
pub open spec fn route_of(method: Method, path: Seq<char>) -> Option<Target> {
    let root = SCOPE@ + "/"@;
    if path == root && method == Method::Get {
        Some(Target { operation: Operation::List, id: None })
    } else if path == root && method == Method::Post {
        Some(Target { operation: Operation::Create, id: None })
    } else if path == SCOPE@ + "/search"@ && method == Method::Get {
        Some(Target { operation: Operation::Search, id: None })
    } else if path == SCOPE@ + "/categories"@ && method == Method::Get {
        Some(Target { operation: Operation::Categories, id: None })
    } else if (method == Method::Put || method == Method::Delete) && path.len() > root.len()
        && path.subrange(0, root.len() as int) == root && parsed_id(
        path.subrange(root.len() as int, path.len() as int),
    ) is Some {
        Some(
            Target {
                operation: if method == Method::Put {
                    Operation::Update
                } else {
                    Operation::Delete
                },
                id: parsed_id(path.subrange(root.len() as int, path.len() as int)),
            },
        )
    } else {
        None
    }
}

/// Finds the route that serves a request.
pub fn resolve(method: Method, path: &str) -> (r: Option<Target>)
    ensures
        r == route_of(method, path@),
{
    let p = String::from_str(path);
    let mut root = String::from_str(SCOPE);
    root.append("/");
    let mut search = String::from_str(SCOPE);
    search.append("/search");
    let mut categories = String::from_str(SCOPE);
    categories.append("/categories");
    if p == root && method == Method::Get {
        return Some(Target { operation: Operation::List, id: None });
    }
    if p == root && method == Method::Post {
        return Some(Target { operation: Operation::Create, id: None });
    }
    if p == search && method == Method::Get {
        return Some(Target { operation: Operation::Search, id: None });
    }
    if p == categories && method == Method::Get {
        return Some(Target { operation: Operation::Categories, id: None });
    }
    if method != Method::Put && method != Method::Delete {
        return None;
    }
    let n = path.unicode_len();
    let k = root.as_str().unicode_len();
    if n <= k {
        return None;
    }
    let head = String::from_str(path.substring_char(0, k));
    if head != root {
        return None;
    }
    match parse_id(path.substring_char(k, n)) {
        Some(id) => {
            let operation = if method == Method::Put {
                Operation::Update
            } else {
                Operation::Delete
            };
            Some(Target { operation, id: Some(id) })
        },
        None => None,
    }
}

} // verus!
