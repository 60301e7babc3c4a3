//! The entry points: from schema text and an override table to the text
//! of the declarations.

use crate::emit::{generated, json_schema_map_to_struct};
use crate::error::{Failure, SchemaError};
use crate::overrides::{OverrideTable, Overrides};
use crate::parse::{parse_schema, parsed_json, root_members, schema_root};
use crate::value::{SchemaValue, Tree};
use vstd::prelude::*;
use vstd::string::*;

verus! {

/// The declaration text of a parsed schema document, or the failure of
/// its compilation.
pub open spec fn compiled(document: Tree, overrides: Overrides) -> Result<Seq<char>, Failure> {
    match root_members(document) {
        Ok(members) => generated(members, overrides),
        Err(e) => Err(e),
    }
}

/// The outcome of compiling schema text whose parse gave `parse`.
pub open spec fn compiled_text(parse: Option<Tree>, overrides: Overrides, r: Result<
    Seq<char>,
    Failure,
>) -> bool {
    match parse {
        Some(document) => r == compiled(document, overrides),
        None => r is Err && r->Err_0 is JsonParse,
    }
}

/// Model of a compilation outcome.
pub open spec fn outcome(r: Result<String, SchemaError>) -> Result<Seq<char>, Failure> {
    match r {
        Ok(s) => Ok(s@),
        Err(e) => Err(e@),
    }
}

/// Compiles a parsed schema document to the text of its declarations.
pub fn generate(document: SchemaValue, overrides: &OverrideTable) -> (r: Result<
    String,
    SchemaError,
>)
    ensures
        outcome(r) == compiled(document@, overrides@),
{
    let members = schema_root(document)?;
    json_schema_map_to_struct(&members, overrides)
}

/// Converts a JSON Schema in a string slice to the text of Rust struct
/// declarations.
pub fn json_schema_to_struct(schema_text: &str, overrides: &OverrideTable) -> (r: Result<
    String,
    SchemaError,
>)
    ensures
        compiled_text(parsed_json(schema_text@), overrides@, outcome(r)),
{
    let members = parse_schema(schema_text)?;
    json_schema_map_to_struct(&members, overrides)
}

/// The outcome of compiling the schema of a resource whose text was read
/// as `contents`, or could not be read.
pub open spec fn compiled_resource(
    resource: Seq<char>,
    contents: Option<Seq<char>>,
    overrides: Overrides,
    r: Result<Seq<char>, Failure>,
) -> bool {
    match contents {
        Some(text) => compiled_text(parsed_json(text), overrides, r),
        None => r == Err::<Seq<char>, Failure>(Failure::ResourceRead { resource }),
    }
}

/// Compiles the schema of the resource `file_path`, whose text the caller
/// has read as `contents`; `None` says that it could not be read.
pub fn json_schema_file_impl(
    file_path: &str,
    contents: Option<String>,
    overrides: &OverrideTable,
) -> (r: Result<String, SchemaError>)
    ensures
        compiled_resource(file_path@, text_of(contents), overrides@, outcome(r)),
{
    match contents {
        Some(text) => json_schema_to_struct(text.as_str(), overrides),
        None => Err(SchemaError::ResourceRead { resource: String::from_str(file_path) }),
    }
}

/// The characters of a text that may be absent.
pub open spec fn text_of(contents: Option<String>) -> Option<Seq<char>> {
    match contents {
        Some(s) => Some(s@),
        None => None,
    }
}

/// Compiles the schema of the resource `resource`, whose text is read
/// once through `read`; `read` answers `None` where it cannot produce the
/// text. Whatever `read` answers, the outcome is the one that
/// `json_schema_file_impl` gives for that answer.
pub fn json_schema_resource<F: Fn(&str) -> Option<String>>(
    resource: &str,
    overrides: &OverrideTable,
    read: F,
) -> (r: Result<String, SchemaError>)
    requires
        read.requires((resource,)),
    ensures
        exists|contents: Option<String>|
            read.ensures((resource,), contents) && #[trigger] compiled_resource(
                resource@,
                text_of(contents),
                overrides@,
                outcome(r),
            ),
{
    let contents = read(resource);
    let ghost answer = contents;
    let r = json_schema_file_impl(resource, contents, overrides);
    assert(compiled_resource(resource@, text_of(answer), overrides@, outcome(r)));
    r
}

} // verus!
