use json_schema_parser::emit::{get_field, get_field_text, process_defs};
use json_schema_parser::parse::parse_json;
use json_schema_parser::{
    generate, json_schema_to_struct, OverrideTable, SchemaError, SchemaValue, ShapeProblem,
};

fn shape(problem: ShapeProblem, subject: &str) -> SchemaError {
    SchemaError::SchemaShape { problem, subject: subject.to_string() }
}

fn compile(text: &str) -> Result<String, SchemaError> {
    json_schema_to_struct(text, &OverrideTable::new())
}

#[test]
fn malformed_json() {
    assert_eq!(compile("{\"title\": "), Err(SchemaError::JsonParse { line: 1, column: 10 }));
}

#[test]
fn root_that_is_not_an_object() {
    assert_eq!(compile("[]"), Err(shape(ShapeProblem::RootNotObject, "")));
    assert_eq!(compile("\"Person\""), Err(shape(ShapeProblem::RootNotObject, "")));
    assert_eq!(
        generate(SchemaValue::Number, &OverrideTable::new()),
        Err(shape(ShapeProblem::RootNotObject, ""))
    );
}

#[test]
fn missing_title() {
    assert_eq!(compile(r#"{"properties":{}}"#), Err(shape(ShapeProblem::MissingTitle, "")));
    assert_eq!(
        compile(r#"{"title":7,"properties":{}}"#),
        Err(shape(ShapeProblem::MissingTitle, ""))
    );
}

#[test]
fn fallback_title_is_used_as_it_stands() {
    let mut overrides = OverrideTable::new();
    overrides.set_rename("", "people");
    let text = json_schema_to_struct(r#"{"properties":{}}"#, &overrides).unwrap();
    assert!(text.ends_with("pub struct people {\n}\n"));
    let text = json_schema_to_struct(r#"{"title":"team","properties":{}}"#, &overrides).unwrap();
    assert!(text.ends_with("pub struct Team {\n}\n"));
}

#[test]
fn missing_properties() {
    assert_eq!(
        compile(r#"{"title":"person"}"#),
        Err(shape(ShapeProblem::MissingProperties, "Person"))
    );
    assert_eq!(
        compile(r##"{"title":"T","properties":{},"$defs":{"veggie":{"type":"object"}}}"##),
        Err(shape(ShapeProblem::MissingProperties, "Veggie"))
    );
}

#[test]
fn properties_that_are_not_an_object_give_no_fields() {
    let text = compile(r#"{"title":"T","properties":[]}"#).unwrap();
    assert!(text.ends_with("pub struct T {\n}\n"));
}

#[test]
fn property_that_is_not_an_object() {
    assert_eq!(
        compile(r#"{"title":"T","properties":{"a":"string"}}"#),
        Err(shape(ShapeProblem::BadProperty, "a"))
    );
}

#[test]
fn definitions_that_are_not_objects() {
    assert_eq!(
        compile(r##"{"title":"T","properties":{},"$defs":[]}"##),
        Err(shape(ShapeProblem::BadDefinitions, ""))
    );
    assert_eq!(
        compile(r##"{"title":"T","properties":{},"$defs":{"a":{"properties":{}},"b":1}}"##),
        Err(shape(ShapeProblem::BadDefinition, "b"))
    );
    let mut done = Vec::new();
    assert_eq!(
        process_defs(&SchemaValue::Null, &OverrideTable::new(), &mut done),
        Err(shape(ShapeProblem::BadDefinitions, ""))
    );
}

#[test]
fn definitions_are_named_by_their_keys() {
    let defs = parse_json(r#"{"veggie":{"title":"Ignored","properties":{"n":{"type":"integer"}}},"fruit":{"properties":{}}}"#).unwrap();
    let mut overrides = OverrideTable::new();
    overrides.set_rename("fruit", "Obst");
    let mut done = Vec::new();
    assert_eq!(process_defs(&defs, &overrides, &mut done), Ok(()));
    let names: Vec<&str> = done.iter().map(|d| d.name.as_str()).collect();
    assert_eq!(names, vec!["Veggie", "Obst"]);
    assert_eq!(done[0].fields.len(), 1);
    assert_eq!(done[1].fields.len(), 0);
}

#[test]
fn unknown_type() {
    assert_eq!(
        compile(r#"{"title":"T","properties":{"when":{"type":"date"}}}"#),
        Err(SchemaError::UnknownType { field: "when".to_string(), type_text: "date".to_string() })
    );
}

#[test]
fn unknown_type_is_masked_by_an_override() {
    let mut overrides = OverrideTable::new();
    overrides.set_type("when", "chrono::NaiveDate");
    let text = json_schema_to_struct(
        r#"{"title":"T","type":"object","properties":{"when":{"type":"date"}}}"#,
        &overrides,
    )
    .unwrap();
    assert!(text.contains("    pub when: chrono::NaiveDate,\n"));
}

#[test]
fn missing_or_malformed_reference() {
    let unresolved = Err(SchemaError::UnresolvedRef { field: "a".to_string() });
    assert_eq!(compile(r#"{"title":"T","properties":{"a":{}}}"#), unresolved);
    assert_eq!(compile(r##"{"title":"T","properties":{"a":{"$ref":"#/definitions/x"}}}"##), unresolved);
    assert_eq!(compile(r##"{"title":"T","properties":{"a":{"$ref":["#/$defs/x"]}}}"##), unresolved);
}

#[test]
fn reference_without_a_definition() {
    assert_eq!(
        compile(r##"{"title":"T","properties":{"ok":{"type":"string"},"a":{"$ref":"#/$defs/x"}}}"##),
        Err(SchemaError::UnresolvedRef { field: "a".to_string() })
    );
    assert_eq!(
        compile(r##"{"title":"T","properties":{"a":{"$ref":"#/$defs/x"}},"$defs":{"y":{"properties":{}}}}"##),
        Err(SchemaError::UnresolvedRef { field: "a".to_string() })
    );
    assert_eq!(
        compile(r##"{"title":"T","properties":{},"$defs":{"y":{"properties":{"deep":{"type":"array","items":{"$ref":"#/$defs/z"}}}}}}"##),
        Err(SchemaError::UnresolvedRef { field: "deep".to_string() })
    );
}

#[test]
fn reference_to_a_name_declared_twice() {
    assert_eq!(
        compile(r##"{"title":"T","properties":{"a":{"$ref":"#/$defs/x"}},"$defs":{"x":{"properties":{}},"X":{"properties":{}}}}"##),
        Err(SchemaError::UnresolvedRef { field: "a".to_string() })
    );
    assert_eq!(
        compile(r##"{"title":"T","properties":{"a":{"$ref":"#/$defs/t"}},"$defs":{"t":{"properties":{}}}}"##),
        Err(SchemaError::UnresolvedRef { field: "a".to_string() })
    );
    assert!(compile(r##"{"title":"T","properties":{"a":{"type":"string"}},"$defs":{"x":{"properties":{}},"X":{"properties":{}}}}"##).is_ok());
}

#[test]
fn reference_to_the_root() {
    let text = compile(r##"{"title":"node","properties":{"next":{"$ref":"#/$defs/node"}}}"##).unwrap();
    assert!(text.contains("    pub next: Node,\n"));
}

#[test]
fn field_and_its_text() {
    let overrides = OverrideTable::new();
    let node = parse_json(r#"{"type":"array","items":{"type":"number"},"required":false}"#).unwrap();
    let field = get_field("values", &node, &overrides).unwrap();
    assert_eq!(field.source_name, "values");
    assert_eq!(field.emitted_name, "values");
    assert!(field.required);
    assert_eq!(field.render(), "    pub values: Vec<f64>,\n");
    assert_eq!(get_field_text("values", &node, &overrides), Ok("    pub values: Vec<f64>,\n".to_string()));
    let node = parse_json(r#"{"type":"boolean"}"#).unwrap();
    assert_eq!(
        get_field_text("flag", &node, &overrides),
        Ok("    #[serde(default)]\n    pub flag: bool,\n".to_string())
    );
    assert_eq!(
        get_field_text("flag", &SchemaValue::Null, &overrides),
        Err(shape(ShapeProblem::BadProperty, "flag"))
    );
}

#[test]
fn messages_name_what_failed() {
    assert_eq!(
        SchemaError::UnknownType { field: "when".to_string(), type_text: "date".to_string() }.message(),
        "Could not parse JSON Schema, unknown type date for when"
    );
    assert_eq!(
        shape(ShapeProblem::MissingProperties, "Person").message(),
        "Could not parse JSON Schema, no properties Person"
    );
    assert_eq!(
        SchemaError::UnresolvedRef { field: "a".to_string() }.message(),
        "Could not parse JSON Schema, unknown $ref for a"
    );
    assert_eq!(
        SchemaError::OverrideSyntax { text: "a=b=c".to_string() }.message(),
        "Could not parse JSON Schema, invalid override: a=b=c"
    );
    assert_eq!(
        SchemaError::ResourceRead { resource: "x.json".to_string() }.message(),
        "Could not read JSON Schema file: x.json"
    );
    assert_eq!(SchemaError::JsonParse { line: 1, column: 2 }.message(), "Could not parse JSON");
}
