//! The schema parser: JSON text to a schema tree. The JSON grammar is
//! `serde_json`'s. The declarations through which the library calls it
//! stand first in this module; what they claim of `serde_json` is believed,
//! not proved.

use crate::error::{shape_error, Failure, SchemaError, ShapeProblem};
use crate::text::lemma_empty_text;
use crate::value::{members_model, SchemaValue, Tree};
use vstd::prelude::*;

verus! {

/// `serde_json::Error`, carried from the parser to the code that reads
/// its position.
#[verifier::external_type_specification]
#[verifier::external_body]
pub struct ExJsonError(serde_json::Error);

/// `serde_json::Value`, as it travels from `serde_json::from_str` to
/// `to_schema_value`.
#[verifier::external_type_specification]
#[verifier::external_body]
pub struct ExJsonValue(serde_json::Value);

/// The tree that `serde_json::from_str` reads from `text`, with the members
/// of an object in the order in which their names first occur in the
/// text; `None` where it reports an error.
pub uninterp spec fn parsed_json(text: Seq<char>) -> Option<Tree>;

/// `serde_json::Error::line`: the line at which the error was detected.
/// Nothing is claimed of the number.
pub assume_specification[ serde_json::Error::line ](e: &serde_json::Error) -> (n: usize)
;

/// `serde_json::Error::column`: the column at which the error was
/// detected. Nothing is claimed of the number.
pub assume_specification[ serde_json::Error::column ](e: &serde_json::Error) -> (n: usize)
;

/// Changes a `serde_json::Value` into a `SchemaValue`, variant by variant:
/// a number loses its digits, an array keeps its items in order, and an
/// object keeps its members in the order in which `serde_json::Map` hands
/// them out, which is insertion order. Nothing is claimed here; the claim
/// about the whole parse stands at `read_json`.
#[verifier::external_body]
fn to_schema_value(v: serde_json::Value) -> SchemaValue {
    match v {
        serde_json::Value::Null => SchemaValue::Null,
        serde_json::Value::Bool(b) => SchemaValue::Bool(b),
        serde_json::Value::Number(_) => SchemaValue::Number,
        serde_json::Value::String(s) => SchemaValue::String(s),
        serde_json::Value::Array(a) => SchemaValue::Array(
            a.into_iter().map(to_schema_value).collect(),
        ),
        serde_json::Value::Object(m) => SchemaValue::Object(
            m.into_iter().map(|(k, x)| (k, to_schema_value(x))).collect(),
        ),
    }
}

/// Calls `serde_json::from_str` for a `serde_json::Value`. Claimed: the
/// outcome depends on the text alone, so that it has a name,
/// `parsed_json`; the value read is handed back as a `SchemaValue` of
/// that tree, and an error is handed back as it is.
#[verifier::external_body]
fn read_json(text: &str) -> (r: Result<SchemaValue, serde_json::Error>)
    ensures
        match r {
            Ok(v) => parsed_json(text@) == Some(v@),
            Err(_) => parsed_json(text@).is_none(),
        },
{
    match serde_json::from_str::<serde_json::Value>(text) {
        Ok(v) => Ok(to_schema_value(v)),
        Err(e) => Err(e),
    }
}

/// Parses JSON text into a schema tree.
pub fn parse_json(text: &str) -> (r: Result<SchemaValue, SchemaError>)
    ensures
        match r {
            Ok(v) => parsed_json(text@) == Some(v@),
            Err(e) => parsed_json(text@).is_none() && e@ is JsonParse,
        },
{
    match read_json(text) {
        Ok(v) => Ok(v),
        Err(e) => Err(SchemaError::JsonParse { line: e.line(), column: e.column() }),
    }
}

/// The members of the root of a schema document, which must be an object.
pub open spec fn root_members(tree: Tree) -> Result<Seq<(Seq<char>, Tree)>, Failure> {
    match tree {
        Tree::Object(members) => Ok(members),
        _ => Err(Failure::Shape { problem: ShapeProblem::RootNotObject, subject: Seq::empty() }),
    }
}

/// The members of the root object of a parsed schema document.
pub fn schema_root(document: SchemaValue) -> (r: Result<Vec<(String, SchemaValue)>, SchemaError>)
    ensures
        match r {
            Ok(m) => root_members(document@) == Ok::<Seq<(Seq<char>, Tree)>, Failure>(
                members_model(m@),
            ),
            Err(e) => root_members(document@) == Err::<Seq<(Seq<char>, Tree)>, Failure>(e@),
        },
{
    match document {
        SchemaValue::Object(members) => Ok(members),
        _ => {
            proof {
                lemma_empty_text();
            }
            Err(shape_error(ShapeProblem::RootNotObject, ""))
        },
    }
}

/// The members of the root object of the schema document that `text`
/// holds, if it parses to `parse`.
pub open spec fn schema_of(parse: Option<Tree>, r: Result<Seq<(Seq<char>, Tree)>, Failure>)
    -> bool {
    match parse {
        Some(document) => r == root_members(document),
        None => r is Err && r->Err_0 is JsonParse,
    }
}

/// Parses schema text: the text must be well-formed JSON, and its root an
/// object.
pub fn parse_schema(text: &str) -> (r: Result<Vec<(String, SchemaValue)>, SchemaError>)
    ensures
        schema_of(
            parsed_json(text@),
            match r {
                Ok(m) => Ok(members_model(m@)),
                Err(e) => Err(e@),
            },
        ),
{
    let document = parse_json(text)?;
    schema_root(document)
}

} // verus!
