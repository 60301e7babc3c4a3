//! What holds of every compilation, proved from the definitions of the
//! other modules.

use crate::emit::{
    count_named, definition_of, definitions_of, defs_of, field_of, fields_of,
    first_dangling, first_unresolved, gathered, resolves, root_title, DefinitionModel, FieldModel,
};
use crate::lift::{lift, own_defs};
use crate::lift_laws::lemma_lift_keeps_property_names;
use crate::error::Failure;
use crate::overrides::Overrides;
use crate::resolve::{format_name, resolve_field, target, TypeModel};
use crate::value::{index_of, lemma_first_index, Tree};
use vstd::prelude::*;

verus! {

proof fn lemma_fields_of_from(
    props: Seq<(Seq<char>, Tree)>,
    from: int,
    overrides: Overrides,
    done: Seq<FieldModel>,
    fields: Seq<FieldModel>,
)
    requires
        0 <= from <= props.len(),
        done.len() == from,
        forall|i: int| 0 <= i < from ==> done[i].source_name == props[i].0,
        fields_of(props, from, overrides, done) == Ok::<Seq<FieldModel>, Failure>(fields),
    ensures
        fields.len() == props.len(),
        forall|i: int| 0 <= i < props.len() ==> (#[trigger] fields[i]).source_name == props[i].0,
    decreases props.len() - from,
{
    if from < props.len() {
        let f = field_of(props[from].0, props[from].1, overrides);
        lemma_fields_of_from(props, from + 1, overrides, done.push(f->Ok_0), fields);
    }
}

/// The fields that come of a list of properties are as many as the
/// properties, and the field at each position is the one for the property
/// at that position.
pub proof fn lemma_fields_follow_properties(
    props: Seq<(Seq<char>, Tree)>,
    overrides: Overrides,
    fields: Seq<FieldModel>,
)
    requires
        fields_of(props, 0, overrides, Seq::empty()) == Ok::<Seq<FieldModel>, Failure>(fields),
    ensures
        fields.len() == props.len(),
        forall|i: int| 0 <= i < props.len() ==> (#[trigger] fields[i]).source_name == props[i].0,
{
    lemma_fields_of_from(props, 0, overrides, Seq::empty(), fields);
}

/// A declaration has one field per entry of its schema's `properties`
/// object, in the same order, and bears the name it was given.
pub proof fn lemma_declaration_follows_properties(
    name: Seq<char>,
    members: Seq<(Seq<char>, Tree)>,
    overrides: Overrides,
    d: DefinitionModel,
)
    requires
        definition_of(name, members, overrides) == Ok::<DefinitionModel, Failure>(d),
    ensures
        d.name == name,
        follows_properties(d, members),
{
    let p = index_of(members, "properties"@);
    if members[p].1 is Object {
        lemma_fields_follow_properties(members[p].1->Object_0, overrides, d.fields);
    }
}

/// Whether a declaration has one field per entry of the `properties`
/// object of the schema with the given members, in the same order; a
/// `properties` that is not an object gives no field.
pub open spec fn follows_properties(d: DefinitionModel, members: Seq<(Seq<char>, Tree)>) -> bool {
    let p = index_of(members, "properties"@);
    &&& 0 <= p < members.len()
    &&& match members[p].1 {
        Tree::Object(props) => {
            &&& d.fields.len() == props.len()
            &&& forall|i: int|
                0 <= i < props.len() ==> (#[trigger] d.fields[i]).source_name == props[i].0
        },
        _ => d.fields.len() == 0,
    }
}

proof fn lemma_defs_of_from(
    entries: Seq<(Seq<char>, Tree)>,
    from: int,
    overrides: Overrides,
    done: Seq<DefinitionModel>,
    out: Seq<DefinitionModel>,
)
    requires
        0 <= from <= entries.len(),
        defs_of(entries, from, overrides, done) == Ok::<Seq<DefinitionModel>, Failure>(out),
    ensures
        out.len() == done.len() + entries.len() - from,
        forall|i: int| 0 <= i < done.len() ==> out[i] == done[i],
        forall|i: int|
            from <= i < entries.len() ==> (#[trigger] entries[i]).1 is Object && definition_of(
                format_name(entries[i].0, overrides.rename),
                entries[i].1->Object_0,
                overrides,
            ) == Ok::<DefinitionModel, Failure>(out[done.len() + i - from]),
    decreases entries.len() - from,
{
    if from < entries.len() {
        let d = definition_of(
            format_name(entries[from].0, overrides.rename),
            entries[from].1->Object_0,
            overrides,
        )->Ok_0;
        lemma_defs_of_from(entries, from + 1, overrides, done.push(d), out);
        assert(out[done.len() as int] == done.push(d)[done.len() as int]);
        assert forall|i: int| 0 <= i < done.len() implies out[i] == done[i] by {
            assert(done.push(d)[i] == done[i]);
        }
    }
}

/// The declarations of a schema are the root's and then one for each entry
/// of the lifted `$defs`, in order. The root's bears the title; each
/// other bears the emitted name of its entry's key. Each has one field per
/// entry of its schema's `properties` object, in the same order.
pub proof fn lemma_declarations_follow_schema(
    members: Seq<(Seq<char>, Tree)>,
    overrides: Overrides,
    defs: Seq<DefinitionModel>,
)
    requires
        definitions_of(members, overrides) == Ok::<Seq<DefinitionModel>, Failure>(defs),
    ensures
        root_title(members, overrides.rename) is Ok,
        lift(members, root_title(members, overrides.rename)->Ok_0) is Ok,
        ({
            let title = root_title(members, overrides.rename)->Ok_0;
            let lifted = lift(members, title)->Ok_0;
            let entries = own_defs(lifted);
            &&& defs.len() == 1 + entries.len()
            &&& defs[0].name == title
            &&& follows_properties(defs[0], lifted)
            &&& forall|i: int|
                0 <= i < entries.len() ==> {
                    &&& (#[trigger] entries[i]).1 is Object
                    &&& defs[i + 1].name == format_name(entries[i].0, overrides.rename)
                    &&& follows_properties(defs[i + 1], entries[i].1->Object_0)
                }
        }),
{
    let title = root_title(members, overrides.rename)->Ok_0;
    let lifted = lift(members, title)->Ok_0;
    let entries = own_defs(lifted);
    let root = definition_of(title, lifted, overrides)->Ok_0;
    lemma_declaration_follows_properties(title, lifted, overrides, root);
    lemma_first_index(lifted, "$defs"@, 0);
    let d = index_of(lifted, "$defs"@);
    if 0 <= d < lifted.len() {
        lemma_defs_of_from(entries, 0, overrides, seq![root], defs);
        assert forall|i: int| 0 <= i < entries.len() implies {
            &&& (#[trigger] entries[i]).1 is Object
            &&& defs[i + 1].name == format_name(entries[i].0, overrides.rename)
            &&& follows_properties(defs[i + 1], entries[i].1->Object_0)
        } by {
            lemma_declaration_follows_properties(
                format_name(entries[i].0, overrides.rename),
                entries[i].1->Object_0,
                overrides,
                defs[i + 1],
            );
        }
    }
}

/// The root declaration of a schema has one field per entry of the
/// schema's own `properties` object, in the same order: lifting the
/// schema first does not disturb them.
pub proof fn lemma_root_fields_follow_schema(
    members: Seq<(Seq<char>, Tree)>,
    overrides: Overrides,
    defs: Seq<DefinitionModel>,
)
    requires
        definitions_of(members, overrides) == Ok::<Seq<DefinitionModel>, Failure>(defs),
    ensures
        defs.len() >= 1,
        follows_properties(defs[0], members),
{
    let title = root_title(members, overrides.rename)->Ok_0;
    let lifted = lift(members, title)->Ok_0;
    lemma_declarations_follow_schema(members, overrides, defs);
    lemma_lift_keeps_property_names(members, title);
    lemma_first_index(members, "properties"@, 0);
    lemma_first_index(lifted, "properties"@, 0);
}

/// A type override for a field decides the field's type, whatever the
/// field's schema holds: the resolution cannot fail and gives the literal
/// text of the override.
pub proof fn lemma_override_wins(field: Seq<char>, node: Tree, overrides: Overrides)
    requires
        overrides.retype.contains_key(field),
    ensures
        resolve_field(field, node, overrides) == Ok::<TypeModel, Failure>(
            TypeModel::Literal(overrides.retype[field]),
        ),
        field_of(field, node, overrides) matches Ok(f) && f.type_expr == TypeModel::Literal(
            overrides.retype[field],
        ),
{
}

/// Whether exactly one of `defs` is named `name`.
pub open spec fn named_once(defs: Seq<DefinitionModel>, name: Seq<char>) -> bool {
    exists|k: int|
        0 <= k < defs.len() && (#[trigger] defs[k]).name == name && forall|j: int|
            0 <= j < defs.len() && (#[trigger] defs[j]).name == name ==> j == k
}

proof fn lemma_count_named(defs: Seq<DefinitionModel>, name: Seq<char>, from: int)
    requires
        0 <= from <= defs.len(),
    ensures
        count_named(defs, name, from) == 0 <==> forall|j: int|
            from <= j < defs.len() ==> (#[trigger] defs[j]).name != name,
        count_named(defs, name, from) == 1 <==> exists|k: int|
            from <= k < defs.len() && (#[trigger] defs[k]).name == name && forall|j: int|
                from <= j < defs.len() && (#[trigger] defs[j]).name == name ==> j == k,
    decreases defs.len() - from,
{
    if from < defs.len() {
        lemma_count_named(defs, name, from + 1);
        if defs[from].name == name {
            if count_named(defs, name, from + 1) == 0 {
                assert(from <= from < defs.len() && defs[from].name == name && forall|j: int|
                    from <= j < defs.len() && (#[trigger] defs[j]).name == name ==> j == from);
            } else {
                if exists|k: int|
                    from <= k < defs.len() && (#[trigger] defs[k]).name == name && forall|j: int|
                        from <= j < defs.len() && (#[trigger] defs[j]).name == name ==> j == k {
                    let k = choose|k: int|
                        from <= k < defs.len() && (#[trigger] defs[k]).name == name && forall|
                            j: int,
                        |
                            from <= j < defs.len() && (#[trigger] defs[j]).name == name ==> j
                                == k;
                    assert(k == from);
                    assert(forall|j: int|
                        from + 1 <= j < defs.len() ==> (#[trigger] defs[j]).name != name);
                }
            }
        } else {
            if count_named(defs, name, from + 1) == 1 {
                let k = choose|k: int|
                    from + 1 <= k < defs.len() && (#[trigger] defs[k]).name == name && forall|
                        j: int,
                    |
                        from + 1 <= j < defs.len() && (#[trigger] defs[j]).name == name ==> j
                            == k;
                assert(from <= k < defs.len() && defs[k].name == name && forall|j: int|
                    from <= j < defs.len() && (#[trigger] defs[j]).name == name ==> j == k);
            }
            if exists|k: int|
                from <= k < defs.len() && (#[trigger] defs[k]).name == name && forall|j: int|
                    from <= j < defs.len() && (#[trigger] defs[j]).name == name ==> j == k {
                let k = choose|k: int|
                    from <= k < defs.len() && (#[trigger] defs[k]).name == name && forall|j: int|
                        from <= j < defs.len() && (#[trigger] defs[j]).name == name ==> j == k;
                assert(from + 1 <= k < defs.len() && defs[k].name == name && forall|j: int|
                    from + 1 <= j < defs.len() && (#[trigger] defs[j]).name == name ==> j == k);
            }
        }
    }
}

/// Counting one declaration of a name is the same as there being exactly
/// one declaration of that name.
pub proof fn lemma_counted_once(defs: Seq<DefinitionModel>, name: Seq<char>)
    ensures
        count_named(defs, name, 0) == 1 <==> named_once(defs, name),
{
    lemma_count_named(defs, name, 0);
}

proof fn lemma_first_unresolved(fields: Seq<FieldModel>, from: int, defs: Seq<DefinitionModel>)
    requires
        0 <= from <= fields.len(),
    ensures
        from <= first_unresolved(fields, from, defs) <= fields.len(),
        first_unresolved(fields, from, defs) == fields.len() ==> forall|i: int|
            from <= i < fields.len() ==> resolves((#[trigger] fields[i]).type_expr, defs),
    decreases fields.len() - from,
{
    if from < fields.len() && resolves(fields[from].type_expr, defs) {
        lemma_first_unresolved(fields, from + 1, defs);
    }
}

proof fn lemma_first_dangling(defs: Seq<DefinitionModel>, from: int, all: Seq<DefinitionModel>)
    requires
        0 <= from <= defs.len(),
    ensures
        from <= first_dangling(defs, from, all) <= defs.len(),
        first_dangling(defs, from, all) == defs.len() ==> forall|d: int, f: int|
            from <= d < defs.len() && 0 <= f < defs[d].fields.len() ==> resolves(
                (#[trigger] defs[d].fields[f]).type_expr,
                all,
            ),
    decreases defs.len() - from,
{
    if from < defs.len() {
        lemma_first_unresolved(defs[from].fields, 0, all);
        if first_unresolved(defs[from].fields, 0, all) >= defs[from].fields.len() {
            lemma_first_dangling(defs, from + 1, all);
        }
    }
}

/// In the declarations of a schema, every field whose type refers to a
/// definition refers to exactly one of the declarations.
pub proof fn lemma_references_resolve(
    members: Seq<(Seq<char>, Tree)>,
    overrides: Overrides,
    defs: Seq<DefinitionModel>,
)
    requires
        definitions_of(members, overrides) == Ok::<Seq<DefinitionModel>, Failure>(defs),
    ensures
        forall|d: int, f: int|
            0 <= d < defs.len() && 0 <= f < defs[d].fields.len() ==> (target(
                (#[trigger] defs[d].fields[f]).type_expr,
            ) matches Some(name) ==> named_once(defs, name)),
{
    let all = gathered(members, overrides)->Ok_0;
    lemma_first_dangling(all, 0, all);
    assert(all == defs);
    assert forall|d: int, f: int|
        0 <= d < defs.len() && 0 <= f < defs[d].fields.len() implies (target(
        (#[trigger] defs[d].fields[f]).type_expr,
    ) matches Some(name) ==> named_once(defs, name)) by {
        assert(resolves(defs[d].fields[f].type_expr, defs));
        if let Some(name) = target(defs[d].fields[f].type_expr) {
            lemma_counted_once(defs, name);
        }
    }
}

} // verus!
