//! What holds of every lifting: it is a fixed point, and it keeps the
//! names and the order of the root's properties.

use crate::error::Failure;
use crate::lift::{
    child_path, item_path, lift, lift_node, lift_properties, own_defs, put_all, reference_to,
    Lifted,
};
use crate::value::{
    has_key, index_of, lemma_first_index, lemma_index_of_is, lookup, put, Tree,
};
use vstd::prelude::*;

verus! {

/// The keys that the lifter reads and writes are different words.
pub proof fn lemma_keys_differ()
    ensures
        "type"@ != "items"@,
        "type"@ != "properties"@,
        "type"@ != "$defs"@,
        "type"@ != "$ref"@,
        "items"@ != "$defs"@,
        "items"@ != "properties"@,
        "properties"@ != "$defs"@,
{
    reveal_strlit("type");
    reveal_strlit("items");
    reveal_strlit("properties");
    reveal_strlit("$defs");
    reveal_strlit("$ref");
    assert("type"@.len() == 4);
    assert("items"@.len() == 5);
    assert("properties"@.len() == 10);
    assert("$defs"@.len() == 5);
    assert("type"@[0] == 't');
    assert("$ref"@[0] == '$');
    assert("items"@[0] == 'i');
    assert("$defs"@[0] == '$');
}

/// After `put`, the key is bound to the value, at the position where it
/// stood before or else at the end.
pub proof fn lemma_put_same(members: Seq<(Seq<char>, Tree)>, key: Seq<char>, value: Tree)
    ensures
        index_of(put(members, key, value), key) == index_of(members, key),
        has_key(put(members, key, value), key),
        put(members, key, value)[index_of(members, key)] == (key, value),
        lookup(put(members, key, value), key) == Some(value),
{
    lemma_first_index(members, key, 0);
    lemma_index_of_is(put(members, key, value), key, index_of(members, key));
}

/// `put` leaves the binding of every other key as it was.
pub proof fn lemma_put_other(
    members: Seq<(Seq<char>, Tree)>,
    key: Seq<char>,
    value: Tree,
    other: Seq<char>,
)
    requires
        key != other,
    ensures
        has_key(put(members, key, value), other) == has_key(members, other),
        has_key(members, other) ==> index_of(put(members, key, value), other) == index_of(
            members,
            other,
        ) && put(members, key, value)[index_of(members, other)] == members[index_of(
            members,
            other,
        )],
        lookup(put(members, key, value), other) == lookup(members, other),
{
    let after = put(members, key, value);
    lemma_first_index(members, key, 0);
    lemma_first_index(members, other, 0);
    lemma_first_index(after, other, 0);
    if has_key(members, other) {
        lemma_index_of_is(after, other, index_of(members, other));
    } else {
        if index_of(after, other) < after.len() {
            let j = index_of(after, other);
            assert(after[j].0 == other);
            if j < members.len() {
                assert(members[j].0 != other);
            }
        }
    }
}

/// Binding a key to the value that it already has changes nothing.
pub proof fn lemma_put_unchanged(members: Seq<(Seq<char>, Tree)>, key: Seq<char>, value: Tree)
    requires
        lookup(members, key) == Some(value),
    ensures
        put(members, key, value) == members,
{
    lemma_first_index(members, key, 0);
    assert(put(members, key, value) =~= members);
}

/// A node on which the lifter has nothing left to do when it meets it
/// below the root: it has no `type`, or a scalar `type`, or it is an array
/// whose item schema is such a node.
pub open spec fn settled(members: Seq<(Seq<char>, Tree)>) -> bool
    decreases members,
{
    let t = index_of(members, "type"@);
    if !(0 <= t < members.len()) {
        true
    } else if members[t].1 == Tree::Text("array"@) {
        let i = index_of(members, "items"@);
        0 <= i < members.len() && members[i].1 is Object && settled(members[i].1->Object_0)
    } else {
        members[t].1 != Tree::Text("object"@)
    }
}

/// Every member is an object that is settled.
pub open spec fn all_settled(props: Seq<(Seq<char>, Tree)>) -> bool {
    forall|i: int|
        0 <= i < props.len() ==> (#[trigger] props[i]).1 is Object && settled(
            props[i].1->Object_0,
        )
}

/// A root on which the lifter has nothing left to do: like a settled
/// node, but an object with settled properties is allowed.
pub open spec fn root_settled(members: Seq<(Seq<char>, Tree)>) -> bool {
    let t = index_of(members, "type"@);
    if !(0 <= t < members.len()) {
        true
    } else if members[t].1 == Tree::Text("array"@) {
        settled(members)
    } else if members[t].1 == Tree::Text("object"@) {
        let p = index_of(members, "properties"@);
        0 <= p < members.len() && (members[p].1 is Object ==> all_settled(
            members[p].1->Object_0,
        ))
    } else {
        true
    }
}

/// The lifter leaves a settled node, and the definitions gathered so far,
/// as they are.
pub proof fn lemma_settled_is_fixed(
    members: Seq<(Seq<char>, Tree)>,
    path: Seq<char>,
    is_root: bool,
    defs: Seq<(Seq<char>, Tree)>,
)
    requires
        settled(members),
    ensures
        lift_node(members, path, is_root, defs) == Ok::<Lifted, Failure>(
            Lifted { members, defs },
        ),
    decreases members,
{
    let t = index_of(members, "type"@);
    if 0 <= t < members.len() && members[t].1 == Tree::Text("array"@) {
        let i = index_of(members, "items"@);
        let items = members[i].1->Object_0;
        lemma_settled_is_fixed(items, item_path(path), false, defs);
        lemma_put_unchanged(members, "items"@, Tree::Object(items));
    }
}

/// What the lifter puts in the place of a node below the root is settled.
pub proof fn lemma_lifted_is_settled(
    members: Seq<(Seq<char>, Tree)>,
    path: Seq<char>,
    defs: Seq<(Seq<char>, Tree)>,
)
    requires
        lift_node(members, path, false, defs) is Ok,
    ensures
        settled(lift_node(members, path, false, defs)->Ok_0.members),
    decreases members,
{
    lemma_keys_differ();
    let out = lift_node(members, path, false, defs)->Ok_0.members;
    let t = index_of(members, "type"@);
    if !(0 <= t < members.len()) {
    } else if members[t].1 == Tree::Text("array"@) {
        let i = index_of(members, "items"@);
        let items = members[i].1->Object_0;
        lemma_lifted_is_settled(items, item_path(path), defs);
        let inner = lift_node(items, item_path(path), false, defs)->Ok_0;
        lemma_put_same(members, "items"@, Tree::Object(inner.members));
        lemma_put_other(members, "items"@, Tree::Object(inner.members), "type"@);
    } else if members[t].1 == Tree::Text("object"@) {
        assert(out == reference_to(path));
        lemma_first_index(out, "type"@, 0);
    } else {
    }
}

/// The lifter turns properties into settled properties.
pub proof fn lemma_lifted_properties_are_settled(
    props: Seq<(Seq<char>, Tree)>,
    from: int,
    path: Seq<char>,
    done: Seq<(Seq<char>, Tree)>,
    defs: Seq<(Seq<char>, Tree)>,
)
    requires
        0 <= from <= props.len(),
        all_settled(done),
        lift_properties(props, from, path, done, defs) is Ok,
    ensures
        all_settled(lift_properties(props, from, path, done, defs)->Ok_0.members),
    decreases props.len() - from,
{
    if from < props.len() {
        let node = props[from].1->Object_0;
        let name = child_path(path, props[from].0);
        lemma_lifted_is_settled(node, name, defs);
        let inner = lift_node(node, name, false, defs)->Ok_0;
        let next = done.push((props[from].0, Tree::Object(inner.members)));
        assert forall|i: int| 0 <= i < next.len() implies (#[trigger] next[i]).1 is Object
            && settled(next[i].1->Object_0) by {
            if i < done.len() {
                assert(next[i] == done[i]);
            }
        }
        lemma_lifted_properties_are_settled(props, from + 1, path, next, inner.defs);
    }
}

/// The lifter leaves settled properties, and the definitions gathered so
/// far, as they are.
pub proof fn lemma_settled_properties_are_fixed(
    props: Seq<(Seq<char>, Tree)>,
    from: int,
    path: Seq<char>,
    done: Seq<(Seq<char>, Tree)>,
    defs: Seq<(Seq<char>, Tree)>,
)
    requires
        0 <= from <= props.len(),
        all_settled(props),
    ensures
        lift_properties(props, from, path, done, defs) == Ok::<Lifted, Failure>(
            Lifted { members: done + props.subrange(from, props.len() as int), defs },
        ),
    decreases props.len() - from,
{
    if from < props.len() {
        let node = props[from].1->Object_0;
        assert(props[from].1 is Object && settled(node));
        lemma_settled_is_fixed(node, child_path(path, props[from].0), false, defs);
        let next = done.push((props[from].0, Tree::Object(node)));
        lemma_settled_properties_are_fixed(props, from + 1, path, next, defs);
        assert(next + props.subrange(from + 1, props.len() as int) =~= done + props.subrange(
            from,
            props.len() as int,
        ));
    } else {
        assert(done + props.subrange(from, props.len() as int) =~= done);
    }
}

/// The lifter leaves a settled root, and the definitions gathered so far,
/// as they are.
pub proof fn lemma_settled_root_is_fixed(
    members: Seq<(Seq<char>, Tree)>,
    path: Seq<char>,
    defs: Seq<(Seq<char>, Tree)>,
)
    requires
        root_settled(members),
    ensures
        lift_node(members, path, true, defs) == Ok::<Lifted, Failure>(Lifted { members, defs }),
{
    let t = index_of(members, "type"@);
    if !(0 <= t < members.len()) {
    } else if members[t].1 == Tree::Text("array"@) {
        lemma_settled_is_fixed(members, path, true, defs);
    } else if members[t].1 == Tree::Text("object"@) {
        let p = index_of(members, "properties"@);
        if members[p].1 is Object {
            let props = members[p].1->Object_0;
            lemma_settled_properties_are_fixed(props, 0, path, Seq::empty(), defs);
            assert(Seq::<(Seq<char>, Tree)>::empty() + props.subrange(0, props.len() as int)
                =~= props);
            lemma_put_unchanged(members, "properties"@, Tree::Object(props));
        }
    } else {
    }
}

/// What the lifter makes of a root is a settled root.
pub proof fn lemma_lifted_root_is_settled(
    members: Seq<(Seq<char>, Tree)>,
    path: Seq<char>,
    defs: Seq<(Seq<char>, Tree)>,
)
    requires
        lift_node(members, path, true, defs) is Ok,
    ensures
        root_settled(lift_node(members, path, true, defs)->Ok_0.members),
{
    lemma_keys_differ();
    let out = lift_node(members, path, true, defs)->Ok_0.members;
    let t = index_of(members, "type"@);
    if !(0 <= t < members.len()) {
    } else if members[t].1 == Tree::Text("array"@) {
        let i = index_of(members, "items"@);
        let items = members[i].1->Object_0;
        lemma_lifted_is_settled(items, item_path(path), defs);
        let inner = lift_node(items, item_path(path), false, defs)->Ok_0;
        lemma_put_same(members, "items"@, Tree::Object(inner.members));
        lemma_put_other(members, "items"@, Tree::Object(inner.members), "type"@);
    } else if members[t].1 == Tree::Text("object"@) {
        let p = index_of(members, "properties"@);
        if members[p].1 is Object {
            let props = members[p].1->Object_0;
            lemma_lifted_properties_are_settled(props, 0, path, Seq::empty(), defs);
            let inner = lift_properties(props, 0, path, Seq::empty(), defs)->Ok_0;
            lemma_put_same(members, "properties"@, Tree::Object(inner.members));
            lemma_put_other(members, "properties"@, Tree::Object(inner.members), "type"@);
        }
    } else {
    }
}

/// Binding `$defs` in a settled root leaves it settled.
pub proof fn lemma_defs_keep_root_settled(members: Seq<(Seq<char>, Tree)>, defs: Tree)
    requires
        root_settled(members),
    ensures
        root_settled(put(members, "$defs"@, defs)),
{
    lemma_keys_differ();
    lemma_put_other(members, "$defs"@, defs, "type"@);
    lemma_put_other(members, "$defs"@, defs, "items"@);
    lemma_put_other(members, "$defs"@, defs, "properties"@);
}

/// Lifting is idempotent: a schema that was lifted lifts to itself.
pub proof fn lemma_lift_idempotent(members: Seq<(Seq<char>, Tree)>, title: Seq<char>)
    requires
        lift(members, title) is Ok,
    ensures
        lift(lift(members, title)->Ok_0, title) == lift(members, title),
{
    let root = lift_node(members, title, true, Seq::empty())->Ok_0;
    let lifted = lift(members, title)->Ok_0;
    lemma_lifted_root_is_settled(members, title, Seq::empty());
    if root.defs.len() != 0 {
        lemma_defs_keep_root_settled(
            root.members,
            Tree::Object(put_all(own_defs(root.members), root.defs, 0)),
        );
    }
    lemma_settled_root_is_fixed(lifted, title, Seq::empty());
}

/// Whether two lists of members bear the same names in the same order.
pub open spec fn same_names(a: Seq<(Seq<char>, Tree)>, b: Seq<(Seq<char>, Tree)>) -> bool {
    a.len() == b.len() && forall|i: int| 0 <= i < a.len() ==> (#[trigger] a[i]).0 == b[i].0
}

proof fn lemma_lift_properties_keeps_names(
    props: Seq<(Seq<char>, Tree)>,
    from: int,
    path: Seq<char>,
    done: Seq<(Seq<char>, Tree)>,
    defs: Seq<(Seq<char>, Tree)>,
)
    requires
        0 <= from <= props.len(),
        lift_properties(props, from, path, done, defs) is Ok,
    ensures
        ({
            let out = lift_properties(props, from, path, done, defs)->Ok_0.members;
            &&& out.len() == done.len() + props.len() - from
            &&& forall|i: int| 0 <= i < done.len() ==> out[i] == done[i]
            &&& forall|i: int|
                from <= i < props.len() ==> out[done.len() + i - from].0 == (#[trigger] props[i]).0
        }),
    decreases props.len() - from,
{
    if from < props.len() {
        let inner = lift_node(
            props[from].1->Object_0,
            child_path(path, props[from].0),
            false,
            defs,
        )->Ok_0;
        let next = done.push((props[from].0, Tree::Object(inner.members)));
        lemma_lift_properties_keeps_names(props, from + 1, path, next, inner.defs);
        let out = lift_properties(props, from, path, done, defs)->Ok_0.members;
        assert(out[done.len() as int] == next[done.len() as int]);
        assert forall|i: int| 0 <= i < done.len() implies out[i] == done[i] by {
            assert(next[i] == done[i]);
        }
    }
}

/// Lifting keeps the root's properties in their places under their names:
/// a `properties` object of the schema is an object with the same names in
/// the same order afterwards, and any other `properties`, or none, is
/// left as it was.
pub proof fn lemma_lift_keeps_property_names(members: Seq<(Seq<char>, Tree)>, title: Seq<char>)
    requires
        lift(members, title) is Ok,
    ensures
        match lookup(members, "properties"@) {
            Some(Tree::Object(props)) => lookup(lift(members, title)->Ok_0, "properties"@)
                matches Some(Tree::Object(out)) && same_names(props, out),
            other => lookup(lift(members, title)->Ok_0, "properties"@) == other,
        },
{
    lemma_keys_differ();
    let root = lift_node(members, title, true, Seq::empty())->Ok_0;
    let t = index_of(members, "type"@);
    if !(0 <= t < members.len()) {
    } else if members[t].1 == Tree::Text("array"@) {
        let i = index_of(members, "items"@);
        let inner = lift_node(members[i].1->Object_0, item_path(title), false, Seq::empty())->Ok_0;
        lemma_put_other(members, "items"@, Tree::Object(inner.members), "properties"@);
    } else if members[t].1 == Tree::Text("object"@) {
        let p = index_of(members, "properties"@);
        if members[p].1 is Object {
            let props = members[p].1->Object_0;
            lemma_lift_properties_keeps_names(props, 0, title, Seq::empty(), Seq::empty());
            let inner = lift_properties(props, 0, title, Seq::empty(), Seq::empty())->Ok_0;
            lemma_put_same(members, "properties"@, Tree::Object(inner.members));
            assert(same_names(props, inner.members));
        }
    } else {
    }
    if root.defs.len() != 0 {
        lemma_put_other(
            root.members,
            "$defs"@,
            Tree::Object(put_all(own_defs(root.members), root.defs, 0)),
            "properties"@,
        );
    }
}

} // verus!
