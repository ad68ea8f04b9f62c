use http_path::matcher::{extract, literal, variable, AsType, Extract, Value};

#[test]
fn matcher_usage() {
    let path = &["a", "b", "1"];
    let pattern = vec![literal(Value::Str("a")), variable(AsType::Str), literal(Value::U32(1))];
    let result = extract(path, &pattern);

    assert!(result.is_some());
}

#[test]
fn test_doc_example() {
    let path = &["a", "1", "c"];
    let pattern = vec![literal(Value::Str("a")), variable(AsType::U32), literal(Value::Str("c"))];

    let result = extract(path, &pattern);
    assert!(result.is_some());

    if let Some(values) = result {
        assert_eq!(values[0], Value::Str("a"));
        assert_eq!(values[1], Value::U32(1u32));
        assert_eq!(values[2], Value::Str("c"));
    }
}

#[test]
fn test_mismatch_literal() {
    let path = &["a", "b"];
    let pattern = vec![literal(Value::Str("x")), variable(AsType::Str)];

    let result = extract(path, &pattern);
    assert!(result.is_none());
}

#[test]
fn test_length_mismatch() {
    let path = &["a"];
    let pattern = vec![literal(Value::Str("a")), variable(AsType::Str)];

    let result = extract(path, &pattern);
    assert!(result.is_none());
}

#[test]
fn longer_path_than_route_is_no_match() {
    let pattern = vec![literal(Value::Str("a"))];
    assert!(extract(&["a", "b"], &pattern).is_none());
    assert_eq!(extract(&[], &Vec::new()), Some(vec![]));
}

#[test]
fn u32_literal_compares_numbers() {
    let pattern = vec![literal(Value::U32(7))];
    assert_eq!(extract(&["7"], &pattern), Some(vec![Value::U32(7)]));
    assert_eq!(extract(&["007"], &pattern), Some(vec![Value::U32(7)]));
    assert!(extract(&["8"], &pattern).is_none());
    assert!(extract(&["x"], &pattern).is_none());
}

#[test]
fn str_literal_is_case_sensitive() {
    let pattern = vec![literal(Value::Str("a"))];
    assert!(extract(&["A"], &pattern).is_none());
}

#[test]
fn u32_parsing_accepts_digits_in_range() {
    assert_eq!(<u32 as Extract>::from_str("0"), Some(0));
    assert_eq!(<u32 as Extract>::from_str("123"), Some(123));
    assert_eq!(<u32 as Extract>::from_str("4294967295"), Some(4294967295));
}

#[test]
fn u32_parsing_rejects_other_text() {
    assert_eq!(<u32 as Extract>::from_str(""), None);
    assert_eq!(<u32 as Extract>::from_str("4294967296"), None);
    assert_eq!(<u32 as Extract>::from_str("99999999999999999999"), None);
    assert_eq!(<u32 as Extract>::from_str("+1"), None);
    assert_eq!(<u32 as Extract>::from_str("-1"), None);
    assert_eq!(<u32 as Extract>::from_str("1a"), None);
    assert_eq!(<u32 as Extract>::from_str(" 1"), None);
}

#[test]
fn u32_variable_rejects_bad_segment() {
    let pattern = vec![variable(AsType::U32)];
    assert!(extract(&["4294967296"], &pattern).is_none());
    assert_eq!(extract(&["4294967295"], &pattern), Some(vec![Value::U32(4294967295)]));
}

#[test]
fn str_parsing_is_identity() {
    assert_eq!(<&str as Extract>::from_str("héllo"), Some("héllo"));
    assert_eq!(<&str as Extract>::from_str(""), Some(""));
}

#[test]
fn matching_twice_gives_the_same_result() {
    let pattern = vec![literal(Value::Str("a")), variable(AsType::U32)];
    let path = &["a", "5"];
    assert_eq!(extract(path, &pattern), extract(path, &pattern));
    assert_eq!(extract(path, &pattern), Some(vec![Value::Str("a"), Value::U32(5)]));
}
