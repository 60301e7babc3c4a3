//! Failures of schema compilation.

use crate::text::join2;
use vstd::prelude::*;
use vstd::string::*;

verus! {

/// The ways in which a schema can have the wrong shape.
#[derive(Debug, Clone, Copy, PartialEq, Eq, Structural)]
pub enum ShapeProblem {
    /// The document root is not an object.
    RootNotObject,
    /// No `title`, and no fallback title among the renames.
    MissingTitle,
    /// A definition or an object node lacks `properties`.
    MissingProperties,
    /// A property is not an object.
    BadProperty,
    /// An array node lacks an object under `items`.
    BadItems,
    /// `$defs` is not an object.
    BadDefinitions,
    /// An entry of `$defs` is not an object.
    BadDefinition,
}

/// Model of a failure: the kind and the names that locate it.
pub enum Failure {
    JsonParse { line: nat, column: nat },
    Shape { problem: ShapeProblem, subject: Seq<char> },
    UnknownType { field: Seq<char>, type_text: Seq<char> },
    UnresolvedRef { field: Seq<char> },
    OverrideSyntax { text: Seq<char> },
    ResourceRead { resource: Seq<char> },
}

/// Why a compilation stopped. Every failure ends the whole invocation.
#[derive(Debug, PartialEq, Eq)]
pub enum SchemaError {
    /// The schema text is not well-formed JSON.
    JsonParse { line: usize, column: usize },
    /// The schema does not have the expected shape; `subject` names the
    /// field, definition or path concerned (empty for the root).
    SchemaShape { problem: ShapeProblem, subject: String },
    /// A `type` keyword outside the recognized set.
    UnknownType { field: String, type_text: String },
    /// A reference that is missing, malformed, or names no single definition.
    UnresolvedRef { field: String },
    /// An override string with more than one separator of its kind.
    OverrideSyntax { text: String },
    /// The schema text of a resource could not be read.
    ResourceRead { resource: String },
}

impl View for SchemaError {
    type V = Failure;

    open spec fn view(&self) -> Failure {
        match self {
            SchemaError::JsonParse { line, column } => Failure::JsonParse {
                line: *line as nat,
                column: *column as nat,
            },
            SchemaError::SchemaShape { problem, subject } => Failure::Shape {
                problem: *problem,
                subject: subject@,
            },
            SchemaError::UnknownType { field, type_text } => Failure::UnknownType {
                field: field@,
                type_text: type_text@,
            },
            SchemaError::UnresolvedRef { field } => Failure::UnresolvedRef { field: field@ },
            SchemaError::OverrideSyntax { text } => Failure::OverrideSyntax { text: text@ },
            SchemaError::ResourceRead { resource } => Failure::ResourceRead {
                resource: resource@,
            },
        }
    }
}

/// A shape failure about `subject`.
pub fn shape_error(problem: ShapeProblem, subject: &str) -> (e: SchemaError)
    ensures
        e@ == (Failure::Shape { problem, subject: subject@ }),
{
    SchemaError::SchemaShape { problem, subject: String::from_str(subject) }
}

/// A short description of a shape problem.
pub open spec fn problem_text(problem: ShapeProblem) -> Seq<char> {
    match problem {
        ShapeProblem::RootNotObject => "the schema is not a JSON object"@,
        ShapeProblem::MissingTitle => "no title"@,
        ShapeProblem::MissingProperties => "no properties"@,
        ShapeProblem::BadProperty => "bad definition"@,
        ShapeProblem::BadItems => "no array item type"@,
        ShapeProblem::BadDefinitions => "invalid $defs"@,
        ShapeProblem::BadDefinition => "invalid $def"@,
    }
}

/// The one-line description of a failure.
pub open spec fn message_text(failure: Failure) -> Seq<char> {
    match failure {
        Failure::JsonParse { line, column } => "Could not parse JSON"@,
        Failure::Shape { problem, subject } => "Could not parse JSON Schema, "@ + problem_text(
            problem,
        ) + " "@ + subject,
        Failure::UnknownType { field, type_text } => "Could not parse JSON Schema, unknown type "@
            + type_text + " for "@ + field,
        Failure::UnresolvedRef { field } => "Could not parse JSON Schema, unknown $ref for "@
            + field,
        Failure::OverrideSyntax { text } => "Could not parse JSON Schema, invalid override: "@
            + text,
        Failure::ResourceRead { resource } => "Could not read JSON Schema file: "@ + resource,
    }
}

impl ShapeProblem {
    /// A short description of the problem.
    pub fn describe(&self) -> (r: &'static str)
        ensures
            r@ == problem_text(*self),
    {
        match self {
            ShapeProblem::RootNotObject => "the schema is not a JSON object",
            ShapeProblem::MissingTitle => "no title",
            ShapeProblem::MissingProperties => "no properties",
            ShapeProblem::BadProperty => "bad definition",
            ShapeProblem::BadItems => "no array item type",
            ShapeProblem::BadDefinitions => "invalid $defs",
            ShapeProblem::BadDefinition => "invalid $def",
        }
    }
}

impl SchemaError {
    /// A one-line description for people.
    pub fn message(&self) -> (r: String)
        ensures
            r@ == message_text(self@),
    {
        match self {
            SchemaError::JsonParse { .. } => String::from_str("Could not parse JSON"),
            SchemaError::SchemaShape { problem, subject } => {
                let mut out = join2("Could not parse JSON Schema, ", problem.describe());
                out.append(" ");
                out.append(subject.as_str());
                out
            },
            SchemaError::UnknownType { field, type_text } => {
                let mut out = join2(
                    "Could not parse JSON Schema, unknown type ",
                    type_text.as_str(),
                );
                out.append(" for ");
                out.append(field.as_str());
                out
            },
            SchemaError::UnresolvedRef { field } => join2(
                "Could not parse JSON Schema, unknown $ref for ",
                field.as_str(),
            ),
            SchemaError::OverrideSyntax { text } => join2(
                "Could not parse JSON Schema, invalid override: ",
                text.as_str(),
            ),
            SchemaError::ResourceRead { resource } => join2(
                "Could not read JSON Schema file: ",
                resource.as_str(),
            ),
        }
    }
}

} // verus!
