//! The embedded-object lifter: every object schema nested inside the root
//! moves into a definition of its own and leaves a reference behind.
//!
//! Definitions are named by the path that leads to them: `Root_property`
//! for a property, `Root_property_item` for the items of an array. Two
//! paths can spell the same name, and a name can be taken in `$defs`
//! already: the definition stored last replaces the earlier one of that
//! name, in its place.

use crate::error::{shape_error, Failure, SchemaError, ShapeProblem};
use crate::lift_laws::lemma_lift_idempotent;
use crate::text::{join2, join3, str_eq};
use crate::value::{
    copy_members, find_member, index_of, lookup, members_model, put, put_member, SchemaValue,
    Tree,
};
use vstd::prelude::*;
use vstd::string::*;

verus! {

/// A rewritten node together with the definitions gathered so far, in the
/// order in which they were gathered.
pub struct Lifted {
    pub members: Seq<(Seq<char>, Tree)>,
    pub defs: Seq<(Seq<char>, Tree)>,
}

/// Synthetic name of the property `key` of the node named `path`.
pub open spec fn child_path(path: Seq<char>, key: Seq<char>) -> Seq<char> {
    path + "_"@ + key
}

/// Synthetic name of the item schema of the array node named `path`.
pub open spec fn item_path(path: Seq<char>) -> Seq<char> {
    path + "_item"@
}

/// The reference text that points at the definition `name`.
pub open spec fn ref_text(name: Seq<char>) -> Seq<char> {
    "#/$defs/"@ + name
}

/// The members of a bare reference to the definition `name`.
pub open spec fn reference_to(name: Seq<char>) -> Seq<(Seq<char>, Tree)> {
    seq![("$ref"@, Tree::Text(ref_text(name)))]
}

/// Rewrites one schema node, given by its members.
///
/// A node without `type`, or whose `type` is neither `"object"` nor
/// `"array"`, stays as it is. An array node has its `items` rewritten in
/// place. An object node has each of its properties rewritten in place; if
/// it is not the root, the rewritten node is then stored in `defs` under
/// `path` and a bare reference takes its place.
pub open spec fn lift_node(
    members: Seq<(Seq<char>, Tree)>,
    path: Seq<char>,
    is_root: bool,
    defs: Seq<(Seq<char>, Tree)>,
) -> Result<Lifted, Failure>
    decreases members, 0nat,
{
    let t = index_of(members, "type"@);
    if !(0 <= t < members.len()) {
        Ok(Lifted { members, defs })
    } else if members[t].1 == Tree::Text("array"@) {
        let i = index_of(members, "items"@);
        if 0 <= i < members.len() && members[i].1 is Object {
            match lift_node(members[i].1->Object_0, item_path(path), false, defs) {
                Ok(inner) => Ok(
                    Lifted {
                        members: put(members, "items"@, Tree::Object(inner.members)),
                        defs: inner.defs,
                    },
                ),
                Err(e) => Err(e),
            }
        } else {
            Err(Failure::Shape { problem: ShapeProblem::BadItems, subject: item_path(path) })
        }
    } else if members[t].1 == Tree::Text("object"@) {
        let p = index_of(members, "properties"@);
        if !(0 <= p < members.len()) {
            Err(Failure::Shape { problem: ShapeProblem::MissingProperties, subject: path })
        } else {
            let rewritten = if members[p].1 is Object {
                match lift_properties(members[p].1->Object_0, 0, path, Seq::empty(), defs) {
                    Ok(inner) => Ok(
                        Lifted {
                            members: put(members, "properties"@, Tree::Object(inner.members)),
                            defs: inner.defs,
                        },
                    ),
                    Err(e) => Err(e),
                }
            } else {
                Ok(Lifted { members, defs })
            };
            match rewritten {
                Ok(node) => if is_root {
                    Ok(node)
                } else {
                    Ok(
                        Lifted {
                            members: reference_to(path),
                            defs: put(node.defs, path, Tree::Object(node.members)),
                        },
                    )
                },
                Err(e) => Err(e),
            }
        }
    } else {
        Ok(Lifted { members, defs })
    }
}

/// Rewrites the properties from position `from` on, in order, appending
/// each rewritten property to `done`. Every property must be an object.
pub open spec fn lift_properties(
    props: Seq<(Seq<char>, Tree)>,
    from: int,
    path: Seq<char>,
    done: Seq<(Seq<char>, Tree)>,
    defs: Seq<(Seq<char>, Tree)>,
) -> Result<Lifted, Failure>
    decreases props, props.len() - from,
{
    if from < 0 || from >= props.len() {
        Ok(Lifted { members: done, defs })
    } else if props[from].1 is Object {
        match lift_node(props[from].1->Object_0, child_path(path, props[from].0), false, defs) {
            Ok(inner) => lift_properties(
                props,
                from + 1,
                path,
                done.push((props[from].0, Tree::Object(inner.members))),
                inner.defs,
            ),
            Err(e) => Err(e),
        }
    } else {
        Err(
            Failure::Shape {
                problem: ShapeProblem::BadProperty,
                subject: child_path(path, props[from].0),
            },
        )
    }
}

/// `base` with the members of `extra` from position `from` on bound in
/// order; a later binding of a name replaces the earlier value in place.
pub open spec fn put_all(
    base: Seq<(Seq<char>, Tree)>,
    extra: Seq<(Seq<char>, Tree)>,
    from: int,
) -> Seq<(Seq<char>, Tree)>
    decreases extra.len() - from,
{
    if from < 0 || from >= extra.len() {
        base
    } else {
        put_all(put(base, extra[from].0, extra[from].1), extra, from + 1)
    }
}

/// The entries of `$defs` that a schema already has; none if `$defs` is
/// absent or not an object.
pub open spec fn own_defs(members: Seq<(Seq<char>, Tree)>) -> Seq<(Seq<char>, Tree)> {
    match lookup(members, "$defs"@) {
        Some(Tree::Object(defs)) => defs,
        _ => Seq::empty(),
    }
}

/// The lifted schema: the root with every nested object schema replaced by
/// a reference, and the gathered definitions bound in `$defs` after the
/// entries that were there. Without gathered definitions `$defs` is left
/// alone.
pub open spec fn lift(members: Seq<(Seq<char>, Tree)>, title: Seq<char>) -> Result<
    Seq<(Seq<char>, Tree)>,
    Failure,
> {
    match lift_node(members, title, true, Seq::empty()) {
        Ok(root) => if root.defs.len() == 0 {
            Ok(root.members)
        } else {
            Ok(
                put(
                    root.members,
                    "$defs"@,
                    Tree::Object(put_all(own_defs(root.members), root.defs, 0)),
                ),
            )
        },
        Err(e) => Err(e),
    }
}

/// Rewrites the schema node `section`, named `name_to_field`, gathering
/// the definitions lifted out of it in `new_defs`.
pub fn extract_embedded_objects(
    name_to_field: &str,
    section: &Vec<(String, SchemaValue)>,
    new_defs: &mut Vec<(String, SchemaValue)>,
    is_root: bool,
) -> (r: Result<Vec<(String, SchemaValue)>, SchemaError>)
    ensures
        match r {
            Ok(m) => lift_node(
                members_model(section@),
                name_to_field@,
                is_root,
                members_model(old(new_defs)@),
            ) == Ok::<Lifted, Failure>(
                Lifted { members: members_model(m@), defs: members_model(final(new_defs)@) },
            ),
            Err(e) => lift_node(
                members_model(section@),
                name_to_field@,
                is_root,
                members_model(old(new_defs)@),
            ) == Err::<Lifted, Failure>(e@),
        },
    decreases section, 0nat,
{
    let t = find_member(section, "type");
    if t >= section.len() {
        return Ok(copy_members(section));
    }
    let kind = section[t].1.as_text();
    let is_array = match kind {
        Some(s) => str_eq(s, "array"),
        None => false,
    };
    let is_object = match kind {
        Some(s) => str_eq(s, "object"),
        None => false,
    };
    if is_array {
        let array_name = join2(name_to_field, "_item");
        let i = find_member(section, "items");
        if i < section.len() {
            if let SchemaValue::Object(items) = &section[i].1 {
                let inner = extract_embedded_objects(array_name.as_str(), items, new_defs, false)?;
                let mut out = copy_members(section);
                put_member(&mut out, "items", SchemaValue::Object(inner));
                return Ok(out);
            }
        }
        return Err(shape_error(ShapeProblem::BadItems, array_name.as_str()));
    }
    if !is_object {
        return Ok(copy_members(section));
    }
    let p = find_member(section, "properties");
    if p >= section.len() {
        return Err(shape_error(ShapeProblem::MissingProperties, name_to_field));
    }
    let mut out = copy_members(section);
    if let SchemaValue::Object(props) = &section[p].1 {
        let rewritten = extract_properties(name_to_field, props, new_defs)?;
        put_member(&mut out, "properties", SchemaValue::Object(rewritten));
    }
    if is_root {
        return Ok(out);
    }
    put_member(new_defs, name_to_field, SchemaValue::Object(out));
    let mut reference: Vec<(String, SchemaValue)> = Vec::new();
    reference.push(
        (String::from_str("$ref"), SchemaValue::String(join2("#/$defs/", name_to_field))),
    );
    assert(members_model(reference@) =~= reference_to(name_to_field@));
    Ok(reference)
}

/// Rewrites the properties of the object node named `path`, in order.
pub fn extract_properties(
    path: &str,
    props: &Vec<(String, SchemaValue)>,
    new_defs: &mut Vec<(String, SchemaValue)>,
) -> (r: Result<Vec<(String, SchemaValue)>, SchemaError>)
    ensures
        match r {
            Ok(m) => lift_properties(
                members_model(props@),
                0,
                path@,
                Seq::empty(),
                members_model(old(new_defs)@),
            ) == Ok::<Lifted, Failure>(
                Lifted { members: members_model(m@), defs: members_model(final(new_defs)@) },
            ),
            Err(e) => lift_properties(
                members_model(props@),
                0,
                path@,
                Seq::empty(),
                members_model(old(new_defs)@),
            ) == Err::<Lifted, Failure>(e@),
        },
    decreases props, 1nat,
{
    let ghost goal = lift_properties(
        members_model(props@),
        0,
        path@,
        Seq::empty(),
        members_model(new_defs@),
    );
    let mut out: Vec<(String, SchemaValue)> = Vec::new();
    let mut i: usize = 0;
    assert(members_model(out@) =~= Seq::empty());
    while i < props.len()
        invariant
            i <= props@.len(),
            goal == lift_properties(
                members_model(props@),
                0,
                path@,
                Seq::empty(),
                members_model(old(new_defs)@),
            ),
            goal == lift_properties(
                members_model(props@),
                i as int,
                path@,
                members_model(out@),
                members_model(new_defs@),
            ),
        decreases props@.len() - i,
    {
        let obj_name = join3(path, "_", props[i].0.as_str());
        match &props[i].1 {
            SchemaValue::Object(inner) => {
                let ghost before = members_model(out@);
                let lifted = match extract_embedded_objects(
                    obj_name.as_str(),
                    inner,
                    new_defs,
                    false,
                ) {
                    Ok(l) => l,
                    Err(e) => {
                        return Err(e);
                    },
                };
                out.push((props[i].0.clone(), SchemaValue::Object(lifted)));
                assert(members_model(out@) =~= before.push(
                    (props@[i as int].0@, Tree::Object(members_model(lifted@))),
                ));
            },
            _ => {
                return Err(shape_error(ShapeProblem::BadProperty, obj_name.as_str()));
            },
        }
        i += 1;
    }
    Ok(out)
}

/// Moves the object schemas embedded in `schema` into its `$defs`; the
/// root itself, named `struct_name`, stays in place.
pub fn process_embedded_objects_into_defs(
    struct_name: &str,
    schema: &Vec<(String, SchemaValue)>,
) -> (r: Result<Vec<(String, SchemaValue)>, SchemaError>)
    ensures
        match r {
            Ok(m) => lift(members_model(schema@), struct_name@) == Ok::<
                Seq<(Seq<char>, Tree)>,
                Failure,
            >(members_model(m@)),
            Err(e) => lift(members_model(schema@), struct_name@) == Err::<
                Seq<(Seq<char>, Tree)>,
                Failure,
            >(e@),
        },
        r matches Ok(m) ==> lift(members_model(m@), struct_name@) == Ok::<
            Seq<(Seq<char>, Tree)>,
            Failure,
        >(members_model(m@)),
{
    proof {
        if lift(members_model(schema@), struct_name@) is Ok {
            lemma_lift_idempotent(members_model(schema@), struct_name@);
        }
    }
    let mut new_defs: Vec<(String, SchemaValue)> = Vec::new();
    assert(members_model(new_defs@) =~= Seq::empty());
    let mut revised = extract_embedded_objects(struct_name, schema, &mut new_defs, true)?;
    if new_defs.len() == 0 {
        return Ok(revised);
    }
    let d = find_member(&revised, "$defs");
    let mut defs: Vec<(String, SchemaValue)> = Vec::new();
    if d < revised.len() {
        if let SchemaValue::Object(old_defs) = &revised[d].1 {
            defs = copy_members(old_defs);
        }
    }
    assert(members_model(defs@) =~= own_defs(members_model(revised@)));
    let ghost goal = put_all(members_model(defs@), members_model(new_defs@), 0);
    let mut i: usize = 0;
    while i < new_defs.len()
        invariant
            i <= new_defs@.len(),
            goal == put_all(members_model(defs@), members_model(new_defs@), i as int),
        decreases new_defs@.len() - i,
    {
        put_member(&mut defs, new_defs[i].0.as_str(), new_defs[i].1.deep_copy());
        i += 1;
    }
    put_member(&mut revised, "$defs", SchemaValue::Object(defs));
    Ok(revised)
}

} // verus!
