//! The schema tree: an order-preserving JSON value and its mathematical model.

use crate::text::str_eq;
use vstd::prelude::*;

verus! {

/// Mathematical model of a schema tree. An object is the sequence of its
/// members in insertion order.
pub enum Tree {
    Null,
    Bool(bool),
    Number,
    Text(Seq<char>),
    Array(Seq<Tree>),
    Object(Seq<(Seq<char>, Tree)>),
}

/// Position of the first member at or after `from` whose name is `key`;
/// `members.len()` if there is none.
pub open spec fn first_index(members: Seq<(Seq<char>, Tree)>, key: Seq<char>, from: int) -> int
    decreases members.len() - from,
{
    if from < 0 || from >= members.len() {
        members.len() as int
    } else if members[from].0 == key {
        from
    } else {
        first_index(members, key, from + 1)
    }
}

/// Position of the first member named `key`, or `members.len()`.
pub open spec fn index_of(members: Seq<(Seq<char>, Tree)>, key: Seq<char>) -> int {
    first_index(members, key, 0)
}

/// Whether some member is named `key`.
pub open spec fn has_key(members: Seq<(Seq<char>, Tree)>, key: Seq<char>) -> bool {
    index_of(members, key) < members.len()
}

/// The value of the first member named `key`.
pub open spec fn lookup(members: Seq<(Seq<char>, Tree)>, key: Seq<char>) -> Option<Tree> {
    if has_key(members, key) {
        Some(members[index_of(members, key)].1)
    } else {
        None
    }
}

/// `members` with `key` bound to `value`: the first member named `key`
/// gets the new value in place, or a new member is appended.
pub open spec fn put(members: Seq<(Seq<char>, Tree)>, key: Seq<char>, value: Tree) -> Seq<
    (Seq<char>, Tree),
> {
    if has_key(members, key) {
        members.update(index_of(members, key), (key, value))
    } else {
        members.push((key, value))
    }
}

/// `first_index` lies between `from` and the length, names a member called
/// `key` when it is below the length, and no earlier member from `from` on
/// has that name.
pub proof fn lemma_first_index(members: Seq<(Seq<char>, Tree)>, key: Seq<char>, from: int)
    requires
        0 <= from <= members.len(),
    ensures
        from <= first_index(members, key, from) <= members.len(),
        first_index(members, key, from) < members.len() ==> members[first_index(
            members,
            key,
            from,
        )].0 == key,
        forall|j: int| from <= j < first_index(members, key, from) ==> members[j].0 != key,
    decreases members.len() - from,
{
    if from < members.len() && members[from].0 != key {
        lemma_first_index(members, key, from + 1);
    }
}

/// A position `i` whose member is named `key`, with no such member before
/// it, is `index_of(members, key)`.
pub proof fn lemma_index_of_is(members: Seq<(Seq<char>, Tree)>, key: Seq<char>, i: int)
    requires
        0 <= i < members.len(),
        members[i].0 == key,
        forall|j: int| 0 <= j < i ==> members[j].0 != key,
    ensures
        index_of(members, key) == i,
{
    lemma_first_index(members, key, 0);
}

/// A parsed schema document or fragment. Objects keep their members in
/// insertion order.
#[derive(Debug, PartialEq, Eq)]
pub enum SchemaValue {
    Null,
    Bool(bool),
    Number,
    String(String),
    Array(Vec<SchemaValue>),
    Object(Vec<(String, SchemaValue)>),
}

/// Model of a list of values.
pub open spec fn items_model(items: Seq<SchemaValue>) -> Seq<Tree>
    decreases items,
{
    Seq::new(
        items.len(),
        |i: int|
            if 0 <= i < items.len() {
                items[i]@
            } else {
                Tree::Null
            },
    )
}

/// Model of a list of object members.
pub open spec fn members_model(members: Seq<(String, SchemaValue)>) -> Seq<(Seq<char>, Tree)>
    decreases members,
{
    Seq::new(
        members.len(),
        |i: int|
            if 0 <= i < members.len() {
                (members[i].0@, members[i].1@)
            } else {
                (Seq::empty(), Tree::Null)
            },
    )
}

impl View for SchemaValue {
    type V = Tree;

    open spec fn view(&self) -> Tree
        decreases self,
    {
        match self {
            SchemaValue::Null => Tree::Null,
            SchemaValue::Bool(b) => Tree::Bool(*b),
            SchemaValue::Number => Tree::Number,
            SchemaValue::String(s) => Tree::Text(s@),
            SchemaValue::Array(items) => Tree::Array(items_model(items@)),
            SchemaValue::Object(members) => Tree::Object(members_model(members@)),
        }
    }
}

/// An independent copy of a list of values.
pub fn copy_items(items: &Vec<SchemaValue>) -> (out: Vec<SchemaValue>)
    ensures
        items_model(out@) == items_model(items@),
    decreases items,
{
    let mut out: Vec<SchemaValue> = Vec::new();
    let mut i: usize = 0;
    while i < items.len()
        invariant
            i <= items.len(),
            out@.len() == i,
            forall|j: int| 0 <= j < i ==> out@[j]@ == items@[j]@,
        decreases items.len() - i,
    {
        out.push(items[i].deep_copy());
        i += 1;
    }
    assert(items_model(out@) =~= items_model(items@));
    out
}

/// An independent copy of a list of object members.
pub fn copy_members(members: &Vec<(String, SchemaValue)>) -> (out: Vec<(String, SchemaValue)>)
    ensures
        members_model(out@) == members_model(members@),
    decreases members,
{
    let mut out: Vec<(String, SchemaValue)> = Vec::new();
    let mut i: usize = 0;
    while i < members.len()
        invariant
            i <= members.len(),
            out@.len() == i,
            forall|j: int|
                0 <= j < i ==> out@[j].0@ == members@[j].0@ && out@[j].1@ == members@[j].1@,
        decreases members.len() - i,
    {
        out.push((members[i].0.clone(), members[i].1.deep_copy()));
        i += 1;
    }
    assert(members_model(out@) =~= members_model(members@));
    out
}

impl SchemaValue {
    /// An independent copy of this value.
    pub fn deep_copy(&self) -> (r: SchemaValue)
        ensures
            r@ == self@,
        decreases self,
    {
        match self {
            SchemaValue::Null => SchemaValue::Null,
            SchemaValue::Bool(b) => SchemaValue::Bool(*b),
            SchemaValue::Number => SchemaValue::Number,
            SchemaValue::String(s) => SchemaValue::String(s.clone()),
            SchemaValue::Array(items) => SchemaValue::Array(copy_items(items)),
            SchemaValue::Object(members) => SchemaValue::Object(copy_members(members)),
        }
    }

    /// The text of a string value.
    pub fn as_text(&self) -> (r: Option<&str>)
        ensures
            match r {
                Some(s) => self@ == Tree::Text(s@),
                None => !(self@ is Text),
            },
    {
        match self {
            SchemaValue::String(s) => Some(s.as_str()),
            _ => None,
        }
    }
}

/// Position of the first member named `key`, or `members.len()`.
pub fn find_member(members: &Vec<(String, SchemaValue)>, key: &str) -> (i: usize)
    ensures
        i == index_of(members_model(members@), key@),
        i <= members@.len(),
{
    let ghost model = members_model(members@);
    let mut i: usize = 0;
    while i < members.len()
        invariant
            i <= members.len(),
            model == members_model(members@),
            first_index(model, key@, 0) == first_index(model, key@, i as int),
        decreases members.len() - i,
    {
        if str_eq(members[i].0.as_str(), key) {
            return i;
        }
        i += 1;
    }
    i
}

/// Binds `key` to `value`: the first member named `key` gets the new value
/// in place, or a new member is appended.
pub fn put_member(members: &mut Vec<(String, SchemaValue)>, key: &str, value: SchemaValue)
    ensures
        members_model(final(members)@) == put(members_model(old(members)@), key@, value@),
{
    let i = find_member(members, key);
    let entry = (String::from_str(key), value);
    if i < members.len() {
        members.set(i, entry);
    } else {
        members.push(entry);
    }
    assert(members_model(members@) =~= put(members_model(old(members)@), key@, value@));
}

} // verus!
