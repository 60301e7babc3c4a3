use json_schema_parser::parse::{parse_json, parse_schema, schema_root};
use json_schema_parser::text::{capitalize, join2, join3, str_eq, strip_prefix, to_chars};
use json_schema_parser::value::{find_member, put_member};
use json_schema_parser::{SchemaError, SchemaValue, ShapeProblem};

fn text(s: &str) -> SchemaValue {
    SchemaValue::String(s.to_string())
}

#[test]
fn scalars() {
    assert_eq!(parse_json("null"), Ok(SchemaValue::Null));
    assert_eq!(parse_json("true"), Ok(SchemaValue::Bool(true)));
    assert_eq!(parse_json("false"), Ok(SchemaValue::Bool(false)));
    assert_eq!(parse_json("12.5"), Ok(SchemaValue::Number));
    assert_eq!(parse_json("-7"), Ok(SchemaValue::Number));
    assert_eq!(parse_json("\"a \\\"b\\\" \\u00e9\""), Ok(text("a \"b\" é")));
    assert_eq!(parse_json(" \"\" "), Ok(text("")));
}

#[test]
fn arrays_keep_their_items_in_order() {
    assert_eq!(
        parse_json("[1, \"two\", [true, null], {}]"),
        Ok(SchemaValue::Array(vec![
            SchemaValue::Number,
            text("two"),
            SchemaValue::Array(vec![SchemaValue::Bool(true), SchemaValue::Null]),
            SchemaValue::Object(vec![]),
        ]))
    );
}

#[test]
fn objects_keep_insertion_order() {
    assert_eq!(
        parse_json("{\"zeta\": 1, \"alpha\": {\"y\": \"b\", \"x\": \"a\"}, \"mid\": []}"),
        Ok(SchemaValue::Object(vec![
            ("zeta".to_string(), SchemaValue::Number),
            (
                "alpha".to_string(),
                SchemaValue::Object(vec![("y".to_string(), text("b")), ("x".to_string(), text("a"))]),
            ),
            ("mid".to_string(), SchemaValue::Array(vec![])),
        ]))
    );
}

#[test]
fn repeated_key_keeps_its_first_place_and_last_value() {
    assert_eq!(
        parse_json("{\"a\": 1, \"b\": \"x\", \"a\": \"y\"}"),
        Ok(SchemaValue::Object(vec![("a".to_string(), text("y")), ("b".to_string(), text("x"))]))
    );
}

#[test]
fn malformed_text_is_a_parse_error() {
    assert_eq!(parse_json("{\"a\": }"), Err(SchemaError::JsonParse { line: 1, column: 7 }));
    assert_eq!(parse_json(""), Err(SchemaError::JsonParse { line: 1, column: 0 }));
    assert_eq!(parse_json("{}\n  x"), Err(SchemaError::JsonParse { line: 2, column: 3 }));
    assert!(matches!(parse_json("{'a': 1}"), Err(SchemaError::JsonParse { .. })));
    assert!(matches!(parse_json("[1, 2"), Err(SchemaError::JsonParse { .. })));
}

#[test]
fn root_must_be_an_object() {
    let not_object = SchemaError::SchemaShape {
        problem: ShapeProblem::RootNotObject,
        subject: "".to_string(),
    };
    assert_eq!(schema_root(SchemaValue::Array(vec![])).unwrap_err(), not_object);
    assert_eq!(schema_root(text("x")).unwrap_err(), not_object);
    assert_eq!(schema_root(SchemaValue::Null).unwrap_err(), not_object);
    assert_eq!(
        schema_root(SchemaValue::Object(vec![("a".to_string(), SchemaValue::Number)])),
        Ok(vec![("a".to_string(), SchemaValue::Number)])
    );
}

#[test]
fn copies_are_equal() {
    let v = parse_json("{\"a\": [1, {\"b\": \"c\"}], \"d\": null, \"e\": true}").unwrap();
    assert_eq!(v.deep_copy(), v);
    assert_eq!(text("x").deep_copy(), text("x"));
}

#[test]
fn members_are_found_by_their_first_place() {
    let members = vec![
        ("a".to_string(), SchemaValue::Number),
        ("b".to_string(), text("first")),
        ("b".to_string(), text("second")),
    ];
    assert_eq!(find_member(&members, "a"), 0);
    assert_eq!(find_member(&members, "b"), 1);
    assert_eq!(find_member(&members, "c"), 3);
    assert_eq!(find_member(&members, "B"), 3);
}

#[test]
fn put_replaces_in_place_or_appends() {
    let mut members = vec![("a".to_string(), SchemaValue::Number), ("b".to_string(), text("x"))];
    put_member(&mut members, "a", SchemaValue::Null);
    assert_eq!(
        members,
        vec![("a".to_string(), SchemaValue::Null), ("b".to_string(), text("x"))]
    );
    put_member(&mut members, "c", SchemaValue::Bool(true));
    assert_eq!(
        members,
        vec![
            ("a".to_string(), SchemaValue::Null),
            ("b".to_string(), text("x")),
            ("c".to_string(), SchemaValue::Bool(true)),
        ]
    );
}

#[test]
fn text_helpers() {
    assert!(str_eq("type", "type"));
    assert!(!str_eq("type", "types"));
    assert!(!str_eq("type", "typo"));
    assert!(str_eq("", ""));
    assert!(str_eq("é", "é"));
    assert!(!str_eq("é", "e"));
    assert_eq!(join2("ab", "cd"), "abcd");
    assert_eq!(join3("a", "", "c"), "ac");
    assert_eq!(capitalize("abc"), "Abc");
    assert_eq!(capitalize("zed"), "Zed");
    assert_eq!(capitalize("ABC"), "ABC");
    assert_eq!(capitalize(""), "");
    assert_eq!(capitalize("ß"), "ß");
    assert_eq!(strip_prefix("#/$defs/x", "#/$defs/"), Some("x".to_string()));
    assert_eq!(strip_prefix("#/$defs/", "#/$defs/"), Some("".to_string()));
    assert_eq!(strip_prefix("#/$def", "#/$defs/"), None);
    assert_eq!(strip_prefix("é/x", "é/"), Some("x".to_string()));
    assert_eq!(to_chars("aé→"), vec!['a', 'é', '→']);
}

#[test]
fn schema_text_must_be_a_json_object() {
    assert_eq!(
        parse_schema("{\"title\": \"T\", \"properties\": {}}"),
        Ok(vec![
            ("title".to_string(), text("T")),
            ("properties".to_string(), SchemaValue::Object(vec![])),
        ])
    );
    assert_eq!(
        parse_schema("[1, 2]"),
        Err(SchemaError::SchemaShape { problem: ShapeProblem::RootNotObject, subject: "".to_string() })
    );
    assert_eq!(parse_schema("{"), Err(SchemaError::JsonParse { line: 1, column: 1 }));
}
