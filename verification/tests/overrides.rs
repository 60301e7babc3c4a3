use json_schema_parser::overrides::{json_schema_file_arguments, string_arguments};
use json_schema_parser::{OverrideTable, SchemaError};

fn strings(items: &[&str]) -> Vec<String> {
    items.iter().map(|s| s.to_string()).collect()
}

#[test]
fn empty_table_has_no_entries() {
    let table = OverrideTable::new();
    assert_eq!(table.rename_of("a"), None);
    assert_eq!(table.type_of("a"), None);
    assert_eq!(table.rename_of(""), None);
}

#[test]
fn later_entries_replace_earlier_ones() {
    let mut table = OverrideTable::new();
    table.set_rename("a", "First");
    table.set_rename("b", "Other");
    table.set_rename("a", "Second");
    table.set_type("a", "u8");
    table.set_type("a", "u16");
    assert_eq!(table.rename_of("a"), Some("Second"));
    assert_eq!(table.rename_of("b"), Some("Other"));
    assert_eq!(table.type_of("a"), Some("u16"));
    assert_eq!(table.type_of("b"), None);
}

#[test]
fn type_override_string() {
    let mut table = OverrideTable::new();
    assert_eq!(table.apply("flag=bool"), Ok(()));
    assert_eq!(table.type_of("flag"), Some("bool"));
    assert_eq!(table.rename_of("flag"), None);
}

#[test]
fn rename_string() {
    let mut table = OverrideTable::new();
    assert_eq!(table.apply("my field->my_field"), Ok(()));
    assert_eq!(table.rename_of("my field"), Some("my_field"));
    assert_eq!(table.type_of("my field"), None);
}

#[test]
fn fallback_title_string() {
    let mut table = OverrideTable::new();
    assert_eq!(table.apply("->People"), Ok(()));
    assert_eq!(table.rename_of(""), Some("People"));
}

#[test]
fn string_without_separator_is_ignored() {
    let mut table = OverrideTable::new();
    assert_eq!(table.apply("flag"), Ok(()));
    assert_eq!(table.apply(""), Ok(()));
    assert_eq!(table.apply("a-b>c"), Ok(()));
    assert_eq!(table.type_of("flag"), None);
    assert_eq!(table.rename_of("flag"), None);
    let built = OverrideTable::from_args(&strings(&["schema.json", "flag"])).unwrap();
    assert_eq!(built.type_of("flag"), None);
    assert_eq!(built.rename_of("flag"), None);
}

#[test]
fn two_equal_signs_are_a_syntax_error() {
    let mut table = OverrideTable::new();
    table.set_type("kept", "u8");
    assert_eq!(
        table.apply("a=b=c"),
        Err(SchemaError::OverrideSyntax { text: "a=b=c".to_string() })
    );
    assert_eq!(table.type_of("a"), None);
    assert_eq!(table.type_of("kept"), Some("u8"));
    assert_eq!(
        OverrideTable::from_args(&strings(&["schema.json", "a=b=c"])).unwrap_err(),
        SchemaError::OverrideSyntax { text: "a=b=c".to_string() }
    );
}

#[test]
fn two_arrows_are_a_syntax_error() {
    let mut table = OverrideTable::new();
    assert_eq!(
        table.apply("a->b->c"),
        Err(SchemaError::OverrideSyntax { text: "a->b->c".to_string() })
    );
    assert_eq!(table.rename_of("a"), None);
}

#[test]
fn equal_sign_decides_the_kind_before_the_arrow() {
    let mut table = OverrideTable::new();
    assert_eq!(table.apply("a->b=c->d"), Ok(()));
    assert_eq!(table.type_of("a->b"), Some("c->d"));
    assert_eq!(table.rename_of("a"), None);
}

#[test]
fn empty_parts_are_kept() {
    let mut table = OverrideTable::new();
    assert_eq!(table.apply("="), Ok(()));
    assert_eq!(table.type_of(""), Some(""));
    assert_eq!(table.apply("x->"), Ok(()));
    assert_eq!(table.rename_of("x"), Some(""));
}

#[test]
fn non_ascii_parts_are_split_by_characters() {
    let mut table = OverrideTable::new();
    assert_eq!(table.apply("größe=f64"), Ok(()));
    assert_eq!(table.type_of("größe"), Some("f64"));
    assert_eq!(table.apply("naïve->Naive"), Ok(()));
    assert_eq!(table.rename_of("naïve"), Some("Naive"));
}

#[test]
fn first_string_is_the_resource_name() {
    let table = OverrideTable::from_args(&strings(&["a=b", "c=d", "e->f"])).unwrap();
    assert_eq!(table.type_of("a"), None);
    assert_eq!(table.type_of("c"), Some("d"));
    assert_eq!(table.rename_of("e"), Some("f"));
    assert!(OverrideTable::from_args(&strings(&[])).is_ok());
    assert!(OverrideTable::from_args(&strings(&["a=b=c"])).is_ok());
}

#[test]
fn first_malformed_string_decides() {
    let r = OverrideTable::from_args(&strings(&["s", "a=b", "x=y=z", "p->q->r"]));
    assert_eq!(r.unwrap_err(), SchemaError::OverrideSyntax { text: "x=y=z".to_string() });
}

#[test]
fn string_literals_among_tokens() {
    let tokens = strings(&["\"src/schema.json\"", ",", "\"flag=bool\"", ",", "name", "\"\"", "\""]);
    assert_eq!(string_arguments(&tokens), strings(&["src/schema.json", "flag=bool", ""]));
    assert_eq!(string_arguments(&strings(&[])), strings(&[]));
}

#[test]
fn file_macro_arguments() {
    let tokens = strings(&["\"src/example2.json\"", ",", "\"veggie->Vegetable\"", ",", "\"veggieLike=i32\""]);
    let (path, table) = json_schema_file_arguments(&tokens).unwrap();
    assert_eq!(path, "src/example2.json");
    assert_eq!(table.rename_of("veggie"), Some("Vegetable"));
    assert_eq!(table.type_of("veggieLike"), Some("i32"));
    assert_eq!(table.type_of("src/example2.json"), None);
}

#[test]
fn file_macro_arguments_without_literals() {
    let (path, table) = json_schema_file_arguments(&strings(&[",", "x"])).unwrap();
    assert_eq!(path, "");
    assert_eq!(table.rename_of("x"), None);
}

#[test]
fn file_macro_arguments_with_bad_override() {
    let tokens = strings(&["\"s.json\"", "\"a=b=c\""]);
    assert_eq!(
        json_schema_file_arguments(&tokens).unwrap_err(),
        SchemaError::OverrideSyntax { text: "a=b=c".to_string() }
    );
}
