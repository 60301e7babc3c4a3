//! The definition emitter: from a lifted schema to named, ordered
//! declarations and their Rust text.
//!
//! A field is required exactly when the property's own schema holds a key
//! named `required`; the `required` array of the enclosing object is not
//! consulted.

use crate::error::{shape_error, Failure, SchemaError, ShapeProblem};
use crate::laws::{lemma_fields_follow_properties, lemma_references_resolve, named_once};
use crate::lift::{lift, process_embedded_objects_into_defs};
use crate::overrides::{OverrideTable, Overrides};
use crate::resolve::{
    format_name, format_struct_name, resolve_field, resolve_field_type, target, type_text,
    TypeExpr, TypeModel,
};
use crate::text::{join3, lemma_empty_text, str_eq};
use crate::value::{find_member, has_key, index_of, members_model, SchemaValue, Tree};
use vstd::prelude::*;
use vstd::string::*;

verus! {

/// Model of a field of a declaration.
pub struct FieldModel {
    pub source_name: Seq<char>,
    pub emitted_name: Seq<char>,
    pub type_expr: TypeModel,
    pub required: bool,
}

/// Model of a declaration: a name and its fields in order.
pub struct DefinitionModel {
    pub name: Seq<char>,
    pub fields: Seq<FieldModel>,
}

/// A field of a declaration.
#[derive(Debug, PartialEq, Eq)]
pub struct Field {
    /// The property's name in the schema.
    pub source_name: String,
    /// The name under which the field is emitted.
    pub emitted_name: String,
    /// The field's type.
    pub type_expr: TypeExpr,
    /// Whether the property's own schema holds the key `required`. A field
    /// that is not required is filled with its type's default when absent.
    pub required: bool,
}

/// A named record with typed, ordered fields.
#[derive(Debug, PartialEq, Eq)]
pub struct Definition {
    pub name: String,
    pub fields: Vec<Field>,
}

impl View for Field {
    type V = FieldModel;

    open spec fn view(&self) -> FieldModel {
        FieldModel {
            source_name: self.source_name@,
            emitted_name: self.emitted_name@,
            type_expr: self.type_expr@,
            required: self.required,
        }
    }
}

/// Model of a list of fields.
pub open spec fn fields_model(fields: Seq<Field>) -> Seq<FieldModel> {
    Seq::new(fields.len(), |i: int| fields[i]@)
}

impl View for Definition {
    type V = DefinitionModel;

    open spec fn view(&self) -> DefinitionModel {
        DefinitionModel { name: self.name@, fields: fields_model(self.fields@) }
    }
}

/// Model of a list of declarations.
pub open spec fn definitions_model(defs: Seq<Definition>) -> Seq<DefinitionModel> {
    Seq::new(defs.len(), |i: int| defs[i]@)
}

/// The name under which the property `key` is emitted.
pub open spec fn emitted_name(key: Seq<char>, rename: Map<Seq<char>, Seq<char>>) -> Seq<char> {
    if rename.contains_key(key) {
        rename[key]
    } else {
        key
    }
}

/// Whether a property's own schema holds the key `required`.
pub open spec fn is_required(node: Tree) -> bool {
    node is Object && has_key(node->Object_0, "required"@)
}

/// The field for the property `key` whose schema is `node`.
pub open spec fn field_of(key: Seq<char>, node: Tree, overrides: Overrides) -> Result<
    FieldModel,
    Failure,
> {
    match resolve_field(key, node, overrides) {
        Ok(t) => Ok(
            FieldModel {
                source_name: key,
                emitted_name: emitted_name(key, overrides.rename),
                type_expr: t,
                required: is_required(node),
            },
        ),
        Err(e) => Err(e),
    }
}

/// The fields for the properties from position `from` on, in order, after
/// the fields in `done`. The first property that fails decides the failure.
pub open spec fn fields_of(
    props: Seq<(Seq<char>, Tree)>,
    from: int,
    overrides: Overrides,
    done: Seq<FieldModel>,
) -> Result<Seq<FieldModel>, Failure>
    decreases props.len() - from,
{
    if from < 0 || from >= props.len() {
        Ok(done)
    } else {
        match field_of(props[from].0, props[from].1, overrides) {
            Ok(f) => fields_of(props, from + 1, overrides, done.push(f)),
            Err(e) => Err(e),
        }
    }
}

/// The declaration named `name` for the schema with the given members:
/// one field per entry of `properties`, in the same order. A `properties`
/// that is not an object gives no fields.
pub open spec fn definition_of(
    name: Seq<char>,
    members: Seq<(Seq<char>, Tree)>,
    overrides: Overrides,
) -> Result<DefinitionModel, Failure> {
    let p = index_of(members, "properties"@);
    if !(0 <= p < members.len()) {
        Err(Failure::Shape { problem: ShapeProblem::MissingProperties, subject: name })
    } else if members[p].1 is Object {
        match fields_of(members[p].1->Object_0, 0, overrides, Seq::empty()) {
            Ok(fields) => Ok(DefinitionModel { name, fields }),
            Err(e) => Err(e),
        }
    } else {
        Ok(DefinitionModel { name, fields: Seq::empty() })
    }
}

/// The name of the root declaration: the emitted name of `title` if it is
/// a string, else the rename of `""` as it stands.
pub open spec fn root_title(members: Seq<(Seq<char>, Tree)>, rename: Map<Seq<char>, Seq<char>>)
    -> Result<Seq<char>, Failure> {
    let t = index_of(members, "title"@);
    if 0 <= t < members.len() && members[t].1 is Text {
        Ok(format_name(members[t].1->Text_0, rename))
    } else if rename.contains_key(Seq::empty()) {
        Ok(rename[Seq::empty()])
    } else {
        Err(Failure::Shape { problem: ShapeProblem::MissingTitle, subject: Seq::empty() })
    }
}

/// The declarations for the entries of `$defs` from position `from` on, in
/// order, after those in `done`. Each entry must be an object and is named
/// by the emitted name of its key.
pub open spec fn defs_of(
    entries: Seq<(Seq<char>, Tree)>,
    from: int,
    overrides: Overrides,
    done: Seq<DefinitionModel>,
) -> Result<Seq<DefinitionModel>, Failure>
    decreases entries.len() - from,
{
    if from < 0 || from >= entries.len() {
        Ok(done)
    } else if entries[from].1 is Object {
        match definition_of(
            format_name(entries[from].0, overrides.rename),
            entries[from].1->Object_0,
            overrides,
        ) {
            Ok(d) => defs_of(entries, from + 1, overrides, done.push(d)),
            Err(e) => Err(e),
        }
    } else {
        Err(Failure::Shape { problem: ShapeProblem::BadDefinition, subject: entries[from].0 })
    }
}

/// The declarations in `done` followed by one for each entry of `defs`,
/// the value of a schema's `$defs`, which must be an object.
pub open spec fn declared(defs: Tree, overrides: Overrides, done: Seq<DefinitionModel>) -> Result<
    Seq<DefinitionModel>,
    Failure,
> {
    match defs {
        Tree::Object(entries) => defs_of(entries, 0, overrides, done),
        _ => Err(
            Failure::Shape { problem: ShapeProblem::BadDefinitions, subject: Seq::empty() },
        ),
    }
}

/// The declarations of a schema before their references are checked: the
/// root first, then one for each entry of the lifted `$defs`, in order.
pub open spec fn gathered(members: Seq<(Seq<char>, Tree)>, overrides: Overrides) -> Result<
    Seq<DefinitionModel>,
    Failure,
> {
    match root_title(members, overrides.rename) {
        Err(e) => Err(e),
        Ok(title) => match lift(members, title) {
            Err(e) => Err(e),
            Ok(lifted) => match definition_of(title, lifted, overrides) {
                Err(e) => Err(e),
                Ok(root) => {
                    let d = index_of(lifted, "$defs"@);
                    if !(0 <= d < lifted.len()) {
                        Ok(seq![root])
                    } else {
                        declared(lifted[d].1, overrides, seq![root])
                    }
                },
            },
        },
    }
}

/// How many of the declarations from position `from` on are named `name`.
pub open spec fn count_named(defs: Seq<DefinitionModel>, name: Seq<char>, from: int) -> nat
    decreases defs.len() - from,
{
    if from < 0 || from >= defs.len() {
        0
    } else if defs[from].name == name {
        1 + count_named(defs, name, from + 1)
    } else {
        count_named(defs, name, from + 1)
    }
}

/// Whether a type refers to nothing, or to exactly one of `defs`.
pub open spec fn resolves(t: TypeModel, defs: Seq<DefinitionModel>) -> bool {
    match target(t) {
        Some(name) => count_named(defs, name, 0) == 1,
        None => true,
    }
}

/// Position of the first field at or after `from` whose type does not
/// resolve in `defs`; `fields.len()` if there is none.
pub open spec fn first_unresolved(fields: Seq<FieldModel>, from: int, defs: Seq<DefinitionModel>)
    -> int
    decreases fields.len() - from,
{
    if from < 0 || from >= fields.len() {
        fields.len() as int
    } else if !resolves(fields[from].type_expr, defs) {
        from
    } else {
        first_unresolved(fields, from + 1, defs)
    }
}

/// Position of the first declaration at or after `from` that has a field
/// whose type does not resolve in `all`; `defs.len()` if there is none.
pub open spec fn first_dangling(defs: Seq<DefinitionModel>, from: int, all: Seq<DefinitionModel>)
    -> int
    decreases defs.len() - from,
{
    if from < 0 || from >= defs.len() {
        defs.len() as int
    } else if first_unresolved(defs[from].fields, 0, all) < defs[from].fields.len() {
        from
    } else {
        first_dangling(defs, from + 1, all)
    }
}

/// The declarations themselves if every reference in them names exactly
/// one of them; otherwise the failure for the first field that does not.
pub open spec fn checked(defs: Seq<DefinitionModel>) -> Result<Seq<DefinitionModel>, Failure> {
    let d = first_dangling(defs, 0, defs);
    if 0 <= d < defs.len() {
        let f = first_unresolved(defs[d].fields, 0, defs);
        Err(Failure::UnresolvedRef { field: defs[d].fields[f].source_name })
    } else {
        Ok(defs)
    }
}

/// The declarations of a schema: the root first, then the definitions in
/// the order of the lifted `$defs`.
pub open spec fn definitions_of(members: Seq<(Seq<char>, Tree)>, overrides: Overrides) -> Result<
    Seq<DefinitionModel>,
    Failure,
> {
    match gathered(members, overrides) {
        Ok(defs) => checked(defs),
        Err(e) => Err(e),
    }
}

/// The text of one field line, with its default marker unless the field
/// is required.
pub open spec fn field_text(f: FieldModel) -> Seq<char> {
    let marker = if f.required {
        Seq::empty()
    } else {
        "    #[serde(default)]\n"@
    };
    marker + "    pub "@ + f.emitted_name + ": "@ + type_text(f.type_expr) + ",\n"@
}

/// `done` followed by the lines of the fields from position `from` on.
pub open spec fn fields_text(fields: Seq<FieldModel>, from: int, done: Seq<char>) -> Seq<char>
    decreases fields.len() - from,
{
    if from < 0 || from >= fields.len() {
        done
    } else {
        fields_text(fields, from + 1, done + field_text(fields[from]))
    }
}

/// The first line of a declaration.
pub open spec fn header_text(name: Seq<char>) -> Seq<char> {
    "#[derive(Clone, Serialize, Deserialize, Default)]\r\npub struct "@ + name + " {\n"@
}

/// The text of one declaration: its name line, one line per field in
/// order, and the closing line.
pub open spec fn definition_text(d: DefinitionModel) -> Seq<char> {
    fields_text(d.fields, 0, header_text(d.name)) + "}\n"@
}

/// `done` followed by the declarations from position `from` on, each
/// after the first of the whole list preceded by a blank line.
pub open spec fn definitions_text(defs: Seq<DefinitionModel>, from: int, done: Seq<char>) -> Seq<
    char,
>
    decreases defs.len() - from,
{
    if from < 0 || from >= defs.len() {
        done
    } else if from == 0 {
        definitions_text(defs, 1, done + definition_text(defs[0]))
    } else {
        definitions_text(defs, from + 1, done + "\n\n"@ + definition_text(defs[from]))
    }
}

/// The declaration text of a schema, or the failure of its compilation.
pub open spec fn generated(members: Seq<(Seq<char>, Tree)>, overrides: Overrides) -> Result<
    Seq<char>,
    Failure,
> {
    match definitions_of(members, overrides) {
        Ok(defs) => Ok(definitions_text(defs, 0, Seq::empty())),
        Err(e) => Err(e),
    }
}

impl Field {
    /// The text of this field's line.
    pub fn render(&self) -> (r: String)
        ensures
            r@ == field_text(self@),
    {
        let mut out = if self.required {
            String::new()
        } else {
            String::from_str("    #[serde(default)]\n")
        };
        out.append("    pub ");
        out.append(self.emitted_name.as_str());
        out.append(": ");
        out.append(self.type_expr.render().as_str());
        out.append(",\n");
        out
    }
}

impl Definition {
    /// The text of this declaration.
    pub fn render(&self) -> (r: String)
        ensures
            r@ == definition_text(self@),
    {
        let mut out = join3(
            "#[derive(Clone, Serialize, Deserialize, Default)]\r\npub struct ",
            self.name.as_str(),
            " {\n",
        );
        let ghost goal = fields_text(self@.fields, 0, out@);
        let mut i: usize = 0;
        while i < self.fields.len()
            invariant
                i <= self.fields@.len(),
                goal == fields_text(self@.fields, i as int, out@),
            decreases self.fields@.len() - i,
        {
            out.append(self.fields[i].render().as_str());
            i += 1;
        }
        out.append("}\n");
        out
    }
}

/// The text of a list of declarations, separated by blank lines.
pub fn render_definitions(defs: &Vec<Definition>) -> (r: String)
    ensures
        r@ == definitions_text(definitions_model(defs@), 0, Seq::empty()),
{
    let mut out = String::new();
    let ghost goal = definitions_text(definitions_model(defs@), 0, out@);
    let mut i: usize = 0;
    while i < defs.len()
        invariant
            i <= defs@.len(),
            goal == definitions_text(definitions_model(defs@), i as int, out@),
        decreases defs@.len() - i,
    {
        if i > 0 {
            out.append("\n\n");
        }
        out.append(defs[i].render().as_str());
        i += 1;
    }
    out
}

/// The field for the property `key_name` whose schema is `defn_value`.
pub fn get_field(key_name: &str, defn_value: &SchemaValue, overrides: &OverrideTable) -> (r:
    Result<Field, SchemaError>)
    ensures
        match r {
            Ok(f) => field_of(key_name@, defn_value@, overrides@) == Ok::<FieldModel, Failure>(
                f@,
            ),
            Err(e) => field_of(key_name@, defn_value@, overrides@) == Err::<FieldModel, Failure>(
                e@,
            ),
        },
{
    let type_expr = resolve_field_type(key_name, defn_value, overrides)?;
    let emitted = match overrides.rename_of(key_name) {
        Some(name) => String::from_str(name),
        None => String::from_str(key_name),
    };
    let required = match defn_value {
        SchemaValue::Object(members) => find_member(members, "required") < members.len(),
        _ => false,
    };
    Ok(Field { source_name: String::from_str(key_name), emitted_name: emitted, type_expr, required })
}

/// Converts a property to the text of a Rust field declaration.
pub fn get_field_text(key_name: &str, defn_value: &SchemaValue, overrides: &OverrideTable) -> (r:
    Result<String, SchemaError>)
    ensures
        match r {
            Ok(s) => field_of(key_name@, defn_value@, overrides@) matches Ok(f) && s@
                == field_text(f),
            Err(e) => field_of(key_name@, defn_value@, overrides@) == Err::<FieldModel, Failure>(
                e@,
            ),
        },
{
    let field = get_field(key_name, defn_value, overrides)?;
    Ok(field.render())
}

/// The fields for a list of properties, in the same order.
pub fn get_fields(props: &Vec<(String, SchemaValue)>, overrides: &OverrideTable) -> (r: Result<
    Vec<Field>,
    SchemaError,
>)
    ensures
        match r {
            Ok(fields) => fields_of(members_model(props@), 0, overrides@, Seq::empty()) == Ok::<
                Seq<FieldModel>,
                Failure,
            >(fields_model(fields@)),
            Err(e) => fields_of(members_model(props@), 0, overrides@, Seq::empty()) == Err::<
                Seq<FieldModel>,
                Failure,
            >(e@),
        },
        r matches Ok(fields) ==> fields@.len() == props@.len() && forall|i: int|
            0 <= i < props@.len() ==> (#[trigger] fields@[i]).source_name@ == props@[i].0@,
{
    let ghost goal = fields_of(members_model(props@), 0, overrides@, Seq::empty());
    let mut out: Vec<Field> = Vec::new();
    assert(fields_model(out@) =~= Seq::empty());
    let mut i: usize = 0;
    while i < props.len()
        invariant
            i <= props@.len(),
            goal == fields_of(members_model(props@), 0, overrides@, Seq::empty()),
            goal == fields_of(members_model(props@), i as int, overrides@, fields_model(out@)),
        decreases props@.len() - i,
    {
        let ghost before = fields_model(out@);
        let field = match get_field(props[i].0.as_str(), &props[i].1, overrides) {
            Ok(f) => f,
            Err(e) => {
                return Err(e);
            },
        };
        out.push(field);
        assert(fields_model(out@) =~= before.push(field@));
        i += 1;
    }
    proof {
        lemma_fields_follow_properties(members_model(props@), overrides@, fields_model(out@));
        assert forall|i: int| 0 <= i < props@.len() implies (#[trigger] out@[i]).source_name@
            == props@[i].0@ by {
            assert(fields_model(out@)[i].source_name == members_model(props@)[i].0);
        }
    }
    Ok(out)
}

/// The declaration named `name` for the schema with the given members.
pub fn get_definition(
    name: String,
    members: &Vec<(String, SchemaValue)>,
    overrides: &OverrideTable,
) -> (r: Result<Definition, SchemaError>)
    ensures
        match r {
            Ok(d) => definition_of(name@, members_model(members@), overrides@) == Ok::<
                DefinitionModel,
                Failure,
            >(d@),
            Err(e) => definition_of(name@, members_model(members@), overrides@) == Err::<
                DefinitionModel,
                Failure,
            >(e@),
        },
{
    let p = find_member(members, "properties");
    if p >= members.len() {
        return Err(shape_error(ShapeProblem::MissingProperties, name.as_str()));
    }
    let fields = match &members[p].1 {
        SchemaValue::Object(props) => get_fields(props, overrides)?,
        _ => {
            let none: Vec<Field> = Vec::new();
            assert(fields_model(none@) =~= Seq::empty());
            none
        },
    };
    let d = Definition { name, fields };
    assert(d@.fields =~= fields_model(fields@));
    Ok(d)
}

/// The name of the root declaration.
pub fn schema_title(schema: &Vec<(String, SchemaValue)>, overrides: &OverrideTable) -> (r: Result<
    String,
    SchemaError,
>)
    ensures
        match r {
            Ok(s) => root_title(members_model(schema@), overrides@.rename) == Ok::<
                Seq<char>,
                Failure,
            >(s@),
            Err(e) => root_title(members_model(schema@), overrides@.rename) == Err::<
                Seq<char>,
                Failure,
            >(e@),
        },
{
    let t = find_member(schema, "title");
    if t < schema.len() {
        if let Some(title) = schema[t].1.as_text() {
            return Ok(format_struct_name(title, overrides));
        }
    }
    proof {
        lemma_empty_text();
    }
    match overrides.rename_of("") {
        Some(name) => Ok(String::from_str(name)),
        None => Err(shape_error(ShapeProblem::MissingTitle, "")),
    }
}

/// Appends to `done` one declaration for each entry of `defs_value`, the
/// value of a schema's `$defs`.
pub fn process_defs(
    defs_value: &SchemaValue,
    overrides: &OverrideTable,
    done: &mut Vec<Definition>,
) -> (r: Result<(), SchemaError>)
    ensures
        match r {
            Ok(_) => declared(defs_value@, overrides@, definitions_model(old(done)@)) == Ok::<
                Seq<DefinitionModel>,
                Failure,
            >(definitions_model(final(done)@)),
            Err(e) => declared(defs_value@, overrides@, definitions_model(old(done)@)) == Err::<
                Seq<DefinitionModel>,
                Failure,
            >(e@),
        },
{
    let entries = match defs_value {
        SchemaValue::Object(entries) => entries,
        _ => {
            proof {
                lemma_empty_text();
            }
            return Err(shape_error(ShapeProblem::BadDefinitions, ""));
        },
    };
    let ghost goal = defs_of(members_model(entries@), 0, overrides@, definitions_model(done@));
    let mut i: usize = 0;
    while i < entries.len()
        invariant
            i <= entries@.len(),
            defs_value@ == Tree::Object(members_model(entries@)),
            goal == defs_of(
                members_model(entries@),
                0,
                overrides@,
                definitions_model(old(done)@),
            ),
            goal == defs_of(
                members_model(entries@),
                i as int,
                overrides@,
                definitions_model(done@),
            ),
        decreases entries@.len() - i,
    {
        let key = entries[i].0.as_str();
        let members = match &entries[i].1 {
            SchemaValue::Object(members) => members,
            _ => {
                return Err(shape_error(ShapeProblem::BadDefinition, key));
            },
        };
        let ghost before = definitions_model(done@);
        let d = match get_definition(format_struct_name(key, overrides), members, overrides) {
            Ok(d) => d,
            Err(e) => {
                return Err(e);
            },
        };
        done.push(d);
        assert(definitions_model(done@) =~= before.push(d@));
        i += 1;
    }
    Ok(())
}

/// The declarations of a schema before their references are checked.
pub fn gather_definitions(schema: &Vec<(String, SchemaValue)>, overrides: &OverrideTable) -> (r:
    Result<Vec<Definition>, SchemaError>)
    ensures
        match r {
            Ok(defs) => gathered(members_model(schema@), overrides@) == Ok::<
                Seq<DefinitionModel>,
                Failure,
            >(definitions_model(defs@)),
            Err(e) => gathered(members_model(schema@), overrides@) == Err::<
                Seq<DefinitionModel>,
                Failure,
            >(e@),
        },
{
    let title = schema_title(schema, overrides)?;
    let lifted = process_embedded_objects_into_defs(title.as_str(), schema)?;
    let root = get_definition(title, &lifted, overrides)?;
    let mut defs: Vec<Definition> = Vec::new();
    defs.push(root);
    assert(definitions_model(defs@) =~= seq![root@]);
    let d = find_member(&lifted, "$defs");
    if d < lifted.len() {
        process_defs(&lifted[d].1, overrides, &mut defs)?;
    }
    Ok(defs)
}

/// How many of `defs` are named `name`.
pub fn count_definitions(defs: &Vec<Definition>, name: &str) -> (n: usize)
    ensures
        n == count_named(definitions_model(defs@), name@, 0),
{
    let ghost model = definitions_model(defs@);
    let mut n: usize = 0;
    let mut i: usize = 0;
    while i < defs.len()
        invariant
            i <= defs@.len(),
            n <= i,
            model == definitions_model(defs@),
            count_named(model, name@, 0) == n + count_named(model, name@, i as int),
        decreases defs@.len() - i,
    {
        if str_eq(defs[i].name.as_str(), name) {
            n += 1;
        }
        i += 1;
    }
    n
}

/// Position of the first field of `fields` whose type does not resolve in
/// `defs`, or `fields.len()`.
pub fn find_unresolved(fields: &Vec<Field>, defs: &Vec<Definition>) -> (i: usize)
    ensures
        i == first_unresolved(fields_model(fields@), 0, definitions_model(defs@)),
        i <= fields@.len(),
{
    let ghost fm = fields_model(fields@);
    let ghost dm = definitions_model(defs@);
    let mut i: usize = 0;
    while i < fields.len()
        invariant
            i <= fields@.len(),
            fm == fields_model(fields@),
            dm == definitions_model(defs@),
            first_unresolved(fm, 0, dm) == first_unresolved(fm, i as int, dm),
        decreases fields@.len() - i,
    {
        let ok = match fields[i].type_expr.reference() {
            Some(name) => count_definitions(defs, name) == 1,
            None => true,
        };
        if !ok {
            return i;
        }
        i += 1;
    }
    i
}

/// Checks that every reference in `defs` names exactly one of them.
pub fn check_references(defs: Vec<Definition>) -> (r: Result<Vec<Definition>, SchemaError>)
    ensures
        match r {
            Ok(out) => checked(definitions_model(defs@)) == Ok::<Seq<DefinitionModel>, Failure>(
                definitions_model(out@),
            ),
            Err(e) => checked(definitions_model(defs@)) == Err::<Seq<DefinitionModel>, Failure>(
                e@,
            ),
        },
{
    let ghost dm = definitions_model(defs@);
    let mut i: usize = 0;
    while i < defs.len()
        invariant
            i <= defs@.len(),
            dm == definitions_model(defs@),
            first_dangling(dm, 0, dm) == first_dangling(dm, i as int, dm),
        decreases defs@.len() - i,
    {
        let f = find_unresolved(&defs[i].fields, &defs);
        if f < defs[i].fields.len() {
            return Err(
                SchemaError::UnresolvedRef { field: defs[i].fields[f].source_name.clone() },
            );
        }
        i += 1;
    }
    Ok(defs)
}

/// Generates the declarations of a parsed schema under the given
/// overrides: the root first, then one per definition.
pub fn schema_definitions(schema: &Vec<(String, SchemaValue)>, overrides: &OverrideTable) -> (r:
    Result<Vec<Definition>, SchemaError>)
    ensures
        match r {
            Ok(defs) => definitions_of(members_model(schema@), overrides@) == Ok::<
                Seq<DefinitionModel>,
                Failure,
            >(definitions_model(defs@)),
            Err(e) => definitions_of(members_model(schema@), overrides@) == Err::<
                Seq<DefinitionModel>,
                Failure,
            >(e@),
        },
        r matches Ok(defs) ==> forall|d: int, f: int|
            0 <= d < defs@.len() && 0 <= f < defs@[d].fields@.len() ==> (target(
                (#[trigger] defs@[d].fields@[f]).type_expr@,
            ) matches Some(name) ==> named_once(definitions_model(defs@), name)),
{
    let defs = gather_definitions(schema, overrides)?;
    let r = check_references(defs);
    proof {
        if r is Ok {
            let out = r->Ok_0;
            let dm = definitions_model(out@);
            lemma_references_resolve(members_model(schema@), overrides@, dm);
            assert forall|d: int, f: int|
                0 <= d < out@.len() && 0 <= f < out@[d].fields@.len() implies (target(
                (#[trigger] out@[d].fields@[f]).type_expr@,
            ) matches Some(name) ==> named_once(dm, name)) by {
                assert(dm[d].fields[f].type_expr == out@[d].fields@[f].type_expr@);
            }
        }
    }
    r
}

/// Converts a JSON Schema, given as the members of its root object, to
/// the text of Rust struct declarations.
pub fn json_schema_map_to_struct(
    schema: &Vec<(String, SchemaValue)>,
    overrides: &OverrideTable,
) -> (r: Result<String, SchemaError>)
    ensures
        match r {
            Ok(s) => generated(members_model(schema@), overrides@) == Ok::<Seq<char>, Failure>(
                s@,
            ),
            Err(e) => generated(members_model(schema@), overrides@) == Err::<Seq<char>, Failure>(
                e@,
            ),
        },
{
    let defs = schema_definitions(schema, overrides)?;
    Ok(render_definitions(&defs))
}

} // verus!
