//! Compiles JSON-Schema-like documents into Rust struct declarations.
//!
//! The pipeline is a pure function of the schema text and an override
//! table: parse the text into a schema tree, lift every object schema
//! nested in the root into a definition of its own, resolve the type of
//! each property, and emit one declaration per definition, the root's
//! first.
//!
//! Every function of the pipeline has a contract over the mathematical
//! models of its arguments: `Tree` for a schema, `Overrides` for the
//! table, `DefinitionModel` for a declaration. The final text is
//! `generate::compiled` of the parsed tree.
//!
//! Three choices are worth knowing:
//!
//! - A field is required exactly when the property's *own* schema holds
//!   a key named `required`. This is not the `required` array of the
//!   enclosing object that JSON Schema defines.
//! - A lifted definition whose name is already taken in `$defs` replaces
//!   the definition of that name, in its place.
//! - Every reference must name exactly one of the emitted declarations;
//!   a reference that names none, or more than one, fails the
//!   compilation. References are named, never followed, so a schema that
//!   refers to itself compiles.

pub mod emit;
pub mod error;
pub mod generate;
pub mod laws;
pub mod lift;
pub mod lift_laws;
pub mod overrides;
pub mod parse;
pub mod resolve;
pub mod text;
pub mod value;

pub use crate::emit::{schema_definitions, Definition, Field};
pub use crate::error::{SchemaError, ShapeProblem};
pub use crate::generate::{
    generate, json_schema_file_impl, json_schema_resource, json_schema_to_struct,
};
pub use crate::overrides::OverrideTable;
pub use crate::resolve::{format_struct_name, get_simple_rust_type, TypeExpr};
pub use crate::value::SchemaValue;
