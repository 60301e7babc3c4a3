use json_schema_parser::lift::{extract_embedded_objects, process_embedded_objects_into_defs};
use json_schema_parser::parse::parse_json;
use json_schema_parser::{SchemaError, SchemaValue, ShapeProblem};

fn members_of(text: &str) -> Vec<(String, SchemaValue)> {
    match parse_json(text).unwrap() {
        SchemaValue::Object(members) => members,
        _ => panic!("the schema is not an object"),
    }
}

fn lifted(name: &str, text: &str) -> Vec<(String, SchemaValue)> {
    process_embedded_objects_into_defs(name, &members_of(text)).unwrap()
}

fn shape(problem: ShapeProblem, subject: &str) -> SchemaError {
    SchemaError::SchemaShape { problem, subject: subject.to_string() }
}

const PEOPLE: &str = r#"{
  "type": "object",
  "properties": {
    "leader": {
      "type": "object",
      "properties": {
        "name": { "type": "string" },
        "home": { "type": "object", "properties": { "city": { "type": "string" } } }
      }
    },
    "members": {
      "type": "array",
      "items": { "type": "object", "properties": { "name": { "type": "string" } } }
    }
  }
}"#;

#[test]
fn process_example_file3_embedded_objs() {
    let modified = lifted("People", PEOPLE);
    let expected = members_of(
        r##"{
  "type": "object",
  "properties": {
    "leader": { "$ref": "#/$defs/People_leader" },
    "members": { "type": "array", "items": { "$ref": "#/$defs/People_members_item" } }
  },
  "$defs": {
    "People_leader_home": { "type": "object", "properties": { "city": { "type": "string" } } },
    "People_leader": {
      "type": "object",
      "properties": {
        "name": { "type": "string" },
        "home": { "$ref": "#/$defs/People_leader_home" }
      }
    },
    "People_members_item": { "type": "object", "properties": { "name": { "type": "string" } } }
  }
}"##,
    );
    assert_eq!(modified, expected);
}

#[test]
fn lifting_twice_changes_nothing() {
    let once = lifted("People", PEOPLE);
    let twice = process_embedded_objects_into_defs("People", &once).unwrap();
    assert_eq!(twice, once);
    let flat = r#"{"title":"T","type":"object","properties":{"a":{"type":"string"}}}"#;
    let once = lifted("T", flat);
    assert_eq!(once, members_of(flat));
    assert_eq!(process_embedded_objects_into_defs("T", &once).unwrap(), once);
}

#[test]
fn node_without_type_is_left_alone() {
    let text = r#"{"properties":{"a":{"type":"object","properties":{}}}}"#;
    assert_eq!(lifted("T", text), members_of(text));
}

#[test]
fn scalar_root_is_left_alone() {
    let text = r#"{"type":"string","properties":{"a":{"type":"object","properties":{}}}}"#;
    assert_eq!(lifted("T", text), members_of(text));
    let text = r#"{"type":7,"properties":{"a":{"type":"object","properties":{}}}}"#;
    assert_eq!(lifted("T", text), members_of(text));
}

#[test]
fn array_root_lifts_its_items() {
    let text = r#"{"type":"array","items":{"type":"object","properties":{"a":{"type":"string"}}}}"#;
    assert_eq!(
        lifted("List", text),
        members_of(
            r##"{"type":"array","items":{"$ref":"#/$defs/List_item"},"$defs":{"List_item":{"type":"object","properties":{"a":{"type":"string"}}}}}"##
        )
    );
}

#[test]
fn arrays_of_arrays_lift_the_innermost_items() {
    let text = r#"{"type":"object","properties":{"grid":{"type":"array","items":{"type":"array","items":{"type":"object","properties":{}}}}}}"#;
    assert_eq!(
        lifted("T", text),
        members_of(
            r##"{"type":"object","properties":{"grid":{"type":"array","items":{"type":"array","items":{"$ref":"#/$defs/T_grid_item_item"}}}},"$defs":{"T_grid_item_item":{"type":"object","properties":{}}}}"##
        )
    );
}

#[test]
fn existing_definitions_come_first() {
    let text = r##"{"type":"object","$defs":{"old":{"type":"object","properties":{"deep":{"type":"object","properties":{}}}}},"properties":{"a":{"type":"object","properties":{}},"b":{"$ref":"#/$defs/old"}}}"##;
    assert_eq!(
        lifted("T", text),
        members_of(
            r##"{"type":"object","$defs":{"old":{"type":"object","properties":{"deep":{"type":"object","properties":{}}}},"T_a":{"type":"object","properties":{}}},"properties":{"a":{"$ref":"#/$defs/T_a"},"b":{"$ref":"#/$defs/old"}}}"##
        )
    );
}

#[test]
fn synthesized_definition_replaces_one_of_its_name_in_place() {
    let text = r##"{"type":"object","$defs":{"T_a":{"type":"string"},"z":{"type":"string"}},"properties":{"a":{"type":"object","properties":{}}}}"##;
    assert_eq!(
        lifted("T", text),
        members_of(
            r##"{"type":"object","$defs":{"T_a":{"type":"object","properties":{}},"z":{"type":"string"}},"properties":{"a":{"$ref":"#/$defs/T_a"}}}"##
        )
    );
}

#[test]
fn later_definition_of_a_name_wins() {
    let text = r#"{"type":"object","properties":{"a_b":{"type":"object","properties":{"first":{"type":"string"}}},"a":{"type":"object","properties":{"b":{"type":"object","properties":{"second":{"type":"string"}}}}}}}"#;
    assert_eq!(
        lifted("T", text),
        members_of(
            r##"{"type":"object","properties":{"a_b":{"$ref":"#/$defs/T_a_b"},"a":{"$ref":"#/$defs/T_a"}},"$defs":{"T_a_b":{"type":"object","properties":{"second":{"type":"string"}}},"T_a":{"type":"object","properties":{"b":{"$ref":"#/$defs/T_a_b"}}}}}"##
        )
    );
}

#[test]
fn definitions_that_are_not_an_object_give_way() {
    let text = r#"{"type":"object","$defs":7,"properties":{"a":{"type":"object","properties":{}}}}"#;
    assert_eq!(
        lifted("T", text),
        members_of(
            r##"{"type":"object","$defs":{"T_a":{"type":"object","properties":{}}},"properties":{"a":{"$ref":"#/$defs/T_a"}}}"##
        )
    );
    let text = r#"{"type":"object","$defs":7,"properties":{"a":{"type":"string"}}}"#;
    assert_eq!(lifted("T", text), members_of(text));
}

#[test]
fn properties_that_are_not_an_object_are_left_alone() {
    let text = r#"{"type":"object","properties":5}"#;
    assert_eq!(lifted("T", text), members_of(text));
}

#[test]
fn nested_node_is_stored_and_replaced() {
    let node = members_of(r#"{"type":"object","properties":{"x":{"type":"integer"}},"description":"d"}"#);
    let mut defs = vec![("before".to_string(), SchemaValue::Null)];
    let out = extract_embedded_objects("Path", &node, &mut defs, false).unwrap();
    assert_eq!(out, members_of(r##"{"$ref":"#/$defs/Path"}"##));
    assert_eq!(
        defs,
        vec![
            ("before".to_string(), SchemaValue::Null),
            ("Path".to_string(), SchemaValue::Object(node)),
        ]
    );
}

#[test]
fn object_node_needs_properties() {
    let text = r#"{"type":"object"}"#;
    assert_eq!(
        process_embedded_objects_into_defs("T", &members_of(text)).unwrap_err(),
        shape(ShapeProblem::MissingProperties, "T")
    );
    let text = r#"{"type":"object","properties":{"a":{"type":"object"}}}"#;
    assert_eq!(
        process_embedded_objects_into_defs("T", &members_of(text)).unwrap_err(),
        shape(ShapeProblem::MissingProperties, "T_a")
    );
}

#[test]
fn every_property_must_be_an_object() {
    let text = r#"{"type":"object","properties":{"a":{"type":"string"},"b":"string","c":3}}"#;
    assert_eq!(
        process_embedded_objects_into_defs("T", &members_of(text)).unwrap_err(),
        shape(ShapeProblem::BadProperty, "T_b")
    );
}

#[test]
fn array_node_needs_an_item_object() {
    let text = r#"{"type":"object","properties":{"a":{"type":"array"}}}"#;
    assert_eq!(
        process_embedded_objects_into_defs("T", &members_of(text)).unwrap_err(),
        shape(ShapeProblem::BadItems, "T_a_item")
    );
    let text = r#"{"type":"array","items":"string"}"#;
    assert_eq!(
        process_embedded_objects_into_defs("T", &members_of(text)).unwrap_err(),
        shape(ShapeProblem::BadItems, "T_item")
    );
}
