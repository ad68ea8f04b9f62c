use http_path::extractor;
use http_path::matcher::{self as m, AsType, Pattern, Value};
use http_path::parser::{gen_extractor, parse, ExtractorParserError, Pattern as Syntax, Patterns};
use http_path::path::Path;

#[test]
fn basic_parsing() {
    let result = parse("a/{u32}/c/1:u32");
    println!("{result:?}");

    if !matches!(
        result.unwrap().0.as_slice(),
        [
            Syntax::Literal { lit: "a", as_type: None },
            Syntax::Variable { as_type: AsType::U32 },
            Syntax::Literal { lit: "c", as_type: None },
            Syntax::Literal { lit: "1", as_type: Some(AsType::U32) },
        ]
    ) {
        panic!("unexpected structure")
    }
}

#[test]
fn extract() {
    let route = extractor("a/1:u32/c:str/{u32}/{str}").unwrap();
    println!("route: {route:?}");
    if let Some(values) = m::extract(&["a", "1", "c", "2", "d"], &route) {
        assert_eq!(values[3], Value::U32(2));
        assert_eq!(values[4], Value::Str("d"));
    } else {
        panic!("route did not match")
    }
}

#[test]
fn usage_usage() {
    let route = extractor("a/1:u32/c:str/{u32}/{str}").unwrap();
    println!("route: {route:?}");

    let path = Path::parse("/a/1/c/2/d?foo=bar").unwrap();
    println!("path: {path:?}");

    let matched = m::extract(path.segments(), &route);
    println!("matched: {matched:?}");

    if let Some(values) = matched {
        assert_eq!(values[3], Value::U32(2));
        assert_eq!(values[4], Value::Str("d"));
    } else {
        panic!("route did not match")
    }
}

#[test]
fn compiled_route_shape() {
    let route = extractor("a/1:u32/c:str/{u32}/{str}").unwrap();
    assert_eq!(route.len(), 5);
    assert!(matches!(route[0], Pattern::Literal(Value::Str("a"))));
    assert!(matches!(route[1], Pattern::Literal(Value::U32(1))));
    assert!(matches!(route[2], Pattern::Literal(Value::Str("c"))));
    assert!(matches!(route[3], Pattern::Variable(AsType::U32)));
    assert!(matches!(route[4], Pattern::Variable(AsType::Str)));
}

#[test]
fn compiled_route_literal_mismatch() {
    let route = extractor("x/{str}").unwrap();
    assert!(m::extract(&["a", "b"], &route).is_none());
}

#[test]
fn compiled_route_length_mismatch() {
    let route = extractor("a/{str}").unwrap();
    assert!(m::extract(&["a"], &route).is_none());
}

#[test]
fn type_names_ignore_case() {
    let p = parse("{STR}/{U32}/x:Str/y:u32").unwrap();
    assert_eq!(
        p,
        Patterns(vec![
            Syntax::Variable { as_type: AsType::Str },
            Syntax::Variable { as_type: AsType::U32 },
            Syntax::Literal { lit: "x", as_type: Some(AsType::Str) },
            Syntax::Literal { lit: "y", as_type: Some(AsType::U32) },
        ])
    );
}

#[test]
fn empty_segments_are_rejected() {
    assert_eq!(parse(""), Err(ExtractorParserError::EmptySegment { index: 0 }));
    assert_eq!(parse("/a"), Err(ExtractorParserError::EmptySegment { index: 0 }));
    assert_eq!(parse("a//b"), Err(ExtractorParserError::EmptySegment { index: 1 }));
    assert_eq!(parse("a/"), Err(ExtractorParserError::EmptySegment { index: 1 }));
}

#[test]
fn unterminated_variable_is_rejected() {
    assert_eq!(parse("a/{u32"), Err(ExtractorParserError::UnterminatedVariable { index: 1 }));
    assert_eq!(parse("{"), Err(ExtractorParserError::UnterminatedVariable { index: 0 }));
}

#[test]
fn unknown_types_are_rejected() {
    assert_eq!(parse("{i64}"), Err(ExtractorParserError::UnknownType { index: 0 }));
    assert_eq!(parse("{}"), Err(ExtractorParserError::UnknownType { index: 0 }));
    assert_eq!(parse("a/b:bool"), Err(ExtractorParserError::UnknownType { index: 1 }));
    assert_eq!(parse("a:"), Err(ExtractorParserError::UnknownType { index: 0 }));
}

#[test]
fn bad_idents_are_rejected() {
    assert_eq!(parse(":u32"), Err(ExtractorParserError::InvalidIdent { index: 0 }));
    assert_eq!(parse("a}b"), Err(ExtractorParserError::InvalidIdent { index: 0 }));
    assert_eq!(parse("a/b{:str"), Err(ExtractorParserError::InvalidIdent { index: 1 }));
}

#[test]
fn first_error_is_reported() {
    assert_eq!(parse("{x}//"), Err(ExtractorParserError::UnknownType { index: 0 }));
}

#[test]
fn u32_literal_must_be_a_number() {
    assert_eq!(extractor("a/x:u32"), Err(ExtractorParserError::InvalidLiteral { index: 1 }));
    assert_eq!(extractor("4294967296:u32"), Err(ExtractorParserError::InvalidLiteral { index: 0 }));
    let p = parse("5:u32/6:u32").unwrap();
    let route = gen_extractor(&p).unwrap();
    assert_eq!(m::extract(&["5", "6"], &route), Some(vec![Value::U32(5), Value::U32(6)]));
}
