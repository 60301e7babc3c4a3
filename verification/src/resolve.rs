//! The type resolver: from a schema node to a target type expression.

use crate::error::{shape_error, Failure, SchemaError, ShapeProblem};
use crate::overrides::{OverrideTable, Overrides};
use crate::text::{capitalize, capitalized, join3, starts_with, str_eq, strip_prefix};
use crate::value::{find_member, index_of, members_model, SchemaValue, Tree};
use vstd::prelude::*;
use vstd::string::*;

verus! {

/// Model of a target type expression.
pub enum TypeModel {
    Bool,
    Int32,
    Float64,
    Text,
    Dynamic,
    Sequence(Box<TypeModel>),
    Reference(Seq<char>),
    Literal(Seq<char>),
}

/// A target type expression.
#[derive(Debug, PartialEq, Eq)]
pub enum TypeExpr {
    /// A boolean.
    Bool,
    /// A 32-bit signed integer.
    Int32,
    /// A 64-bit floating-point number.
    Float64,
    /// Text.
    Text,
    /// An opaque dynamic value: an object schema that was not lifted.
    Dynamic,
    /// A sequence of values of the inner type.
    Sequence(Box<TypeExpr>),
    /// The definition of the given emitted name.
    Reference(String),
    /// Literal type text from a type override.
    Literal(String),
}

impl TypeExpr {
    /// The model of this type expression.
    pub open spec fn model(&self) -> TypeModel
        decreases self,
    {
        match self {
            TypeExpr::Bool => TypeModel::Bool,
            TypeExpr::Int32 => TypeModel::Int32,
            TypeExpr::Float64 => TypeModel::Float64,
            TypeExpr::Text => TypeModel::Text,
            TypeExpr::Dynamic => TypeModel::Dynamic,
            TypeExpr::Sequence(inner) => TypeModel::Sequence(Box::new(inner.model())),
            TypeExpr::Reference(name) => TypeModel::Reference(name@),
            TypeExpr::Literal(text) => TypeModel::Literal(text@),
        }
    }
}

impl View for TypeExpr {
    type V = TypeModel;

    open spec fn view(&self) -> TypeModel {
        self.model()
    }
}

/// The definition that a type expression refers to, if it refers to one.
pub open spec fn target(t: TypeModel) -> Option<Seq<char>>
    decreases t,
{
    match t {
        TypeModel::Sequence(inner) => target(*inner),
        TypeModel::Reference(name) => Some(name),
        _ => None,
    }
}

/// The Rust text of a type expression.
pub open spec fn type_text(t: TypeModel) -> Seq<char>
    decreases t,
{
    match t {
        TypeModel::Bool => "bool"@,
        TypeModel::Int32 => "i32"@,
        TypeModel::Float64 => "f64"@,
        TypeModel::Text => "String"@,
        TypeModel::Dynamic => "serde_json::Value::Object"@,
        TypeModel::Sequence(inner) => "Vec<"@ + type_text(*inner) + ">"@,
        TypeModel::Reference(name) => name,
        TypeModel::Literal(text) => text,
    }
}

impl TypeExpr {
    /// The Rust text of this type expression.
    pub fn render(&self) -> (r: String)
        ensures
            r@ == type_text(self@),
        decreases self,
    {
        match self {
            TypeExpr::Bool => String::from_str("bool"),
            TypeExpr::Int32 => String::from_str("i32"),
            TypeExpr::Float64 => String::from_str("f64"),
            TypeExpr::Text => String::from_str("String"),
            TypeExpr::Dynamic => String::from_str("serde_json::Value::Object"),
            TypeExpr::Sequence(inner) => join3("Vec<", inner.render().as_str(), ">"),
            TypeExpr::Reference(name) => name.clone(),
            TypeExpr::Literal(text) => text.clone(),
        }
    }

    /// The emitted name of the definition that this type refers to.
    pub fn reference(&self) -> (r: Option<&str>)
        ensures
            match r {
                Some(name) => target(self@) == Some(name@),
                None => target(self@).is_none(),
            },
        decreases self,
    {
        match self {
            TypeExpr::Sequence(inner) => inner.reference(),
            TypeExpr::Reference(name) => Some(name.as_str()),
            _ => None,
        }
    }
}

/// The type that a scalar JSON Schema type name stands for.
pub open spec fn simple_type(name: Seq<char>) -> Option<TypeModel> {
    if name == "boolean"@ {
        Some(TypeModel::Bool)
    } else if name == "number"@ {
        Some(TypeModel::Float64)
    } else if name == "string"@ {
        Some(TypeModel::Text)
    } else if name == "integer"@ {
        Some(TypeModel::Int32)
    } else if name == "object"@ {
        Some(TypeModel::Dynamic)
    } else {
        None
    }
}

/// Converts a JSON Schema type name to its Rust equivalent; `None` for a
/// name outside the recognized set.
pub fn get_simple_rust_type(json_type_name: &str) -> (r: Option<TypeExpr>)
    ensures
        match r {
            Some(t) => simple_type(json_type_name@) == Some(t@),
            None => simple_type(json_type_name@).is_none(),
        },
{
    if str_eq(json_type_name, "boolean") {
        Some(TypeExpr::Bool)
    } else if str_eq(json_type_name, "number") {
        Some(TypeExpr::Float64)
    } else if str_eq(json_type_name, "string") {
        Some(TypeExpr::Text)
    } else if str_eq(json_type_name, "integer") {
        Some(TypeExpr::Int32)
    } else if str_eq(json_type_name, "object") {
        Some(TypeExpr::Dynamic)
    } else {
        None
    }
}

/// The emitted name of a definition: its rename if it has one, else the
/// raw name with its first character in ASCII upper case.
pub open spec fn format_name(raw: Seq<char>, rename: Map<Seq<char>, Seq<char>>) -> Seq<char> {
    if rename.contains_key(raw) {
        rename[raw]
    } else {
        capitalized(raw)
    }
}

/// Applies the rename for `src`, or else capitalizes its first character.
pub fn format_struct_name(src: &str, overrides: &OverrideTable) -> (r: String)
    ensures
        r@ == format_name(src@, overrides@.rename),
{
    match overrides.rename_of(src) {
        Some(name) => String::from_str(name),
        None => capitalize(src),
    }
}

/// The name that a reference text points at: what follows `#/$defs/`.
pub open spec fn ref_name(text: Seq<char>) -> Option<Seq<char>> {
    if starts_with(text, "#/$defs/"@) {
        Some(text.subrange("#/$defs/"@.len() as int, text.len() as int))
    } else {
        None
    }
}

/// The type of a schema node, given by its members.
///
/// A node without `type` must hold a `$ref` of the form `#/$defs/<name>`
/// and resolves to a reference to the emitted name of `<name>`. An array
/// node resolves to a sequence of what its `items` resolve to. Any other
/// `type` must be one of the scalar names.
pub open spec fn resolve_type(
    field: Seq<char>,
    members: Seq<(Seq<char>, Tree)>,
    rename: Map<Seq<char>, Seq<char>>,
) -> Result<TypeModel, Failure>
    decreases members,
{
    let t = index_of(members, "type"@);
    if !(0 <= t < members.len()) {
        let r = index_of(members, "$ref"@);
        if 0 <= r < members.len() && members[r].1 is Text && ref_name(
            members[r].1->Text_0,
        ).is_some() {
            Ok(TypeModel::Reference(format_name(ref_name(members[r].1->Text_0).unwrap(), rename)))
        } else {
            Err(Failure::UnresolvedRef { field })
        }
    } else if members[t].1 is Text {
        let name = members[t].1->Text_0;
        if name == "array"@ {
            let i = index_of(members, "items"@);
            if 0 <= i < members.len() && members[i].1 is Object {
                match resolve_type(field, members[i].1->Object_0, rename) {
                    Ok(inner) => Ok(TypeModel::Sequence(Box::new(inner))),
                    Err(e) => Err(e),
                }
            } else {
                Err(Failure::Shape { problem: ShapeProblem::BadItems, subject: field })
            }
        } else {
            match simple_type(name) {
                Some(t) => Ok(t),
                None => Err(Failure::UnknownType { field, type_text: name }),
            }
        }
    } else {
        Err(Failure::UnknownType { field, type_text: Seq::empty() })
    }
}

/// The type of the field `field` whose schema is `node`: a type override
/// for `field` decides alone; otherwise the node must be an object and is
/// resolved by `resolve_type`.
pub open spec fn resolve_field(field: Seq<char>, node: Tree, overrides: Overrides) -> Result<
    TypeModel,
    Failure,
> {
    if overrides.retype.contains_key(field) {
        Ok(TypeModel::Literal(overrides.retype[field]))
    } else if node is Object {
        resolve_type(field, node->Object_0, overrides.rename)
    } else {
        Err(Failure::Shape { problem: ShapeProblem::BadProperty, subject: field })
    }
}

/// Resolves the type of the schema node `defn_map` for the field
/// `key_name`, without regard to type overrides.
pub fn get_field_type(
    key_name: &str,
    defn_map: &Vec<(String, SchemaValue)>,
    overrides: &OverrideTable,
) -> (r: Result<TypeExpr, SchemaError>)
    ensures
        match r {
            Ok(t) => resolve_type(key_name@, members_model(defn_map@), overrides@.rename) == Ok::<
                TypeModel,
                Failure,
            >(t@),
            Err(e) => resolve_type(key_name@, members_model(defn_map@), overrides@.rename)
                == Err::<TypeModel, Failure>(e@),
        },
    decreases defn_map,
{
    let t = find_member(defn_map, "type");
    if t >= defn_map.len() {
        let r = find_member(defn_map, "$ref");
        if r < defn_map.len() {
            if let Some(text) = defn_map[r].1.as_text() {
                if let Some(name) = strip_prefix(text, "#/$defs/") {
                    return Ok(TypeExpr::Reference(format_struct_name(name.as_str(), overrides)));
                }
            }
        }
        return Err(SchemaError::UnresolvedRef { field: String::from_str(key_name) });
    }
    let json_type = match defn_map[t].1.as_text() {
        Some(s) => s,
        None => {
            return Err(
                SchemaError::UnknownType {
                    field: String::from_str(key_name),
                    type_text: String::new(),
                },
            );
        },
    };
    if str_eq(json_type, "array") {
        let i = find_member(defn_map, "items");
        if i < defn_map.len() {
            if let SchemaValue::Object(items) = &defn_map[i].1 {
                let inner = get_field_type(key_name, items, overrides)?;
                return Ok(TypeExpr::Sequence(Box::new(inner)));
            }
        }
        return Err(shape_error(ShapeProblem::BadItems, key_name));
    }
    match get_simple_rust_type(json_type) {
        Some(t) => Ok(t),
        None => Err(
            SchemaError::UnknownType {
                field: String::from_str(key_name),
                type_text: String::from_str(json_type),
            },
        ),
    }
}

/// Resolves the type of the field `field` whose schema is `node`. A type
/// override for `field` wins over whatever the node declares.
pub fn resolve_field_type(field: &str, node: &SchemaValue, overrides: &OverrideTable) -> (r:
    Result<TypeExpr, SchemaError>)
    ensures
        match r {
            Ok(t) => resolve_field(field@, node@, overrides@) == Ok::<TypeModel, Failure>(t@),
            Err(e) => resolve_field(field@, node@, overrides@) == Err::<TypeModel, Failure>(e@),
        },
        overrides@.retype.contains_key(field@) ==> r.is_ok() && r.unwrap()@ == TypeModel::Literal(
            overrides@.retype[field@],
        ),
{
    match overrides.type_of(field) {
        Some(text) => Ok(TypeExpr::Literal(String::from_str(text))),
        None => match node {
            SchemaValue::Object(members) => get_field_type(field, members, overrides),
            _ => Err(shape_error(ShapeProblem::BadProperty, field)),
        },
    }
}

} // verus!
