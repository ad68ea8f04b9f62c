use http_path::path::{Path, Query, QueryKV, QueryKeyResult};

fn check_path(input: &str, expected_path: &[&str], expected_query: Option<&str>) {
    let parsed = Path::parse(input).unwrap();

    assert_eq!(parsed.segments(), expected_path);
    match expected_query {
        Some(q) => {
            assert!(parsed.query().is_some());
            assert_eq!(parsed.query().unwrap().as_str(), q);
        }
        None => assert!(parsed.query().is_none()),
    }
}

#[test]
fn parse_path_with_query() {
    check_path("/users/123/profile?active=true&sort=asc", &["users", "123", "profile"], Some("active=true&sort=asc"));
    check_path("/path?key=value&other=data", &["path"], Some("key=value&other=data"));
    check_path("/a/b/c?x=1&y=2&z=3", &["a", "b", "c"], Some("x=1&y=2&z=3"));
}

#[test]
fn parse_path_without_query() {
    check_path("/api/v1/users", &["api", "v1", "users"], None);
    check_path("/path", &["path"], None);
}

#[test]
fn parse_path_degenerate() {
    check_path("/", &[], None);
    check_path("", &[], None);
    check_path("/path/", &["path"], None);
}

#[test]
fn parse_path_collapses_slashes() {
    check_path("//path//to///resource", &["path", "to", "resource"], None);
}

#[test]
fn parse_path_query_edges() {
    check_path("/?query=value", &[], Some("query=value"));
    check_path("/path?", &["path"], Some(""));
    check_path("/path?query?with?question?marks", &["path"], Some("query?with?question?marks"));
}

fn check_query(query_string: &str, key: &str, expected: QueryKeyResult) {
    let query = Query::new(query_string);
    let result = query.get(key);
    assert_eq!(result, expected);
}

#[test]
fn query_get_single() {
    check_query("key=value", "key", QueryKeyResult::Single(QueryKV::KeyValue("key", "value")));
    check_query("flag", "flag", QueryKeyResult::Single(QueryKV::Key("flag")));
    check_query("key=value&other=data", "key", QueryKeyResult::Single(QueryKV::KeyValue("key", "value")));
    check_query("key=value&other=data", "other", QueryKeyResult::Single(QueryKV::KeyValue("other", "data")));
    check_query("key=&other=value", "key", QueryKeyResult::Single(QueryKV::KeyValue("key", "")));
    check_query("a=1&b=2&c=3", "b", QueryKeyResult::Single(QueryKV::KeyValue("b", "2")));
    check_query("key", "key", QueryKeyResult::Single(QueryKV::Key("key")));
}

#[test]
fn query_get_absent() {
    check_query("key=value", "other", QueryKeyResult::Absent);
    check_query("flag", "other", QueryKeyResult::Absent);
    check_query("prefix=value", "pre", QueryKeyResult::Absent);
    check_query("", "key", QueryKeyResult::Absent);
}

#[test]
fn query_get_multiple() {
    check_query(
        "key=value&key=another",
        "key",
        QueryKeyResult::Multiple(vec![QueryKV::KeyValue("key", "value"), QueryKV::KeyValue("key", "another")]),
    );
    check_query("flag&flag", "flag", QueryKeyResult::Multiple(vec![QueryKV::Key("flag"), QueryKV::Key("flag")]));
    check_query(
        "a=1&b=2&c=3&a=4",
        "a",
        QueryKeyResult::Multiple(vec![QueryKV::KeyValue("a", "1"), QueryKV::KeyValue("a", "4")]),
    );
}

#[test]
fn query_get_value_keeps_later_equals() {
    check_query("key=value=with=equals", "key", QueryKeyResult::Single(QueryKV::KeyValue("key", "value=with=equals")));
}

#[test]
fn query_result_into_vec() {
    assert_eq!(QueryKeyResult::Absent.into_vec(), vec![]);
    assert_eq!(QueryKeyResult::Single(QueryKV::Key("a")).into_vec(), vec![QueryKV::Key("a")]);
    let q = Query::new("a=1&a");
    assert_eq!(q.get("a").into_vec(), vec![QueryKV::KeyValue("a", "1"), QueryKV::Key("a")]);
}

#[test]
fn query_of_path_is_looked_up() {
    let path = Path::parse("/a?x=1&y=2").unwrap();
    let q = path.query().unwrap();
    assert_eq!(q.get("y"), QueryKeyResult::Single(QueryKV::KeyValue("y", "2")));
}
