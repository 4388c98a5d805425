//! What holds of every JSON value: what it says, and what its members are.
use serde_json::Value;
use vstd::prelude::*;

use crate::json::Json;
use crate::json::JsonNumber;
use crate::json::JsonTree;
use crate::parse::distinct_keys;
use crate::parse::member_trees;
use crate::parse::number_of;
use crate::parse::value_tree;
use crate::parse::value_trees;

verus! {

/// The value at a key of an object is the member with that key, as a text or a
/// list where it is one; setting it changes that member alone.
pub proof fn law_object_has_its_members(
    members: Map<Seq<char>, JsonTree>,
    key: Seq<char>,
    value: JsonTree,
)
    ensures
        ({
            let object = JsonTree::Object(members);
            &&& object.get(key) is Some <==> members.contains_key(key)
            &&& members.contains_key(key) ==> object.get(key) == Some(members[key])
            &&& object.text_at(key) is Some <==> members.contains_key(key) && members[key] is Text
            &&& object.text_at(key) is Some ==> members[key] == JsonTree::Text(
                object.text_at(key)->0,
            )
            &&& object.array_at(key) is Some <==> members.contains_key(key) && members[key] is Array
            &&& object.array_at(key) is Some ==> members[key] == JsonTree::Array(
                object.array_at(key)->0,
            )
            &&& object.with(key, value) == JsonTree::Object(members.insert(key, value))
        }),
{
}

/// A text reads as itself and a list as its items; nothing else is a text or a
/// list.
pub proof fn law_text_and_list_read_as_they_are(
    tree: JsonTree,
    text: Seq<char>,
    items: Seq<JsonTree>,
)
    ensures
        tree.as_text() == Some(text) <==> tree == JsonTree::Text(text),
        tree.as_array() == Some(items) <==> tree == JsonTree::Array(items),
{
}

/// What is no object has no members, and none can be set.
pub proof fn law_only_objects_have_members(tree: JsonTree, key: Seq<char>, value: JsonTree)
    requires
        !(tree is Object),
    ensures
        tree.get(key) is None,
        tree.text_at(key) is None,
        tree.array_at(key) is None,
        tree.with(key, value) == tree,
{
}

/// The members that the entries of an object stand for.
proof fn lemma_entries(entries: Seq<(String, Json)>)
    ensures
        forall|key: Seq<char>| #[trigger]
            crate::json::entry_trees(entries).contains_key(key) ==> exists|i: int|
                0 <= i < entries.len() && (#[trigger] entries[i]).0@ == key,
        forall|i: int|
            0 <= i < entries.len() ==> crate::json::entry_trees(entries).contains_key(
                (#[trigger] entries[i]).0@,
            ),
        forall|i: int|
            0 <= i < entries.len() && (forall|j: int|
                i < j < entries.len() ==> (#[trigger] entries[j]).0@ != entries[i].0@)
                ==> crate::json::entry_trees(entries)[(#[trigger] entries[i]).0@] == entries[i].1@,
    decreases entries.len(),
{
    if entries.len() > 0 {
        let rest = entries.drop_last();
        let trees = crate::json::entry_trees(entries);
        let last = entries.len() - 1;
        lemma_entries(rest);
        assert forall|key: Seq<char>| #[trigger] trees.contains_key(key) implies exists|i: int|
            0 <= i < entries.len() && (#[trigger] entries[i]).0@ == key by {
            if entries[last].0@ != key {
                assert(crate::json::entry_trees(rest).contains_key(key));
                let i = choose|i: int| 0 <= i < rest.len() && (#[trigger] rest[i]).0@ == key;
                assert(entries[i].0@ == key);
            }
        }
        assert forall|i: int| 0 <= i < entries.len() implies trees.contains_key(
            (#[trigger] entries[i]).0@,
        ) by {
            if i < last {
                assert(rest[i] == entries[i]);
            }
        }
        assert forall|i: int|
            0 <= i < entries.len() && (forall|j: int|
                i < j < entries.len() ==> (#[trigger] entries[j]).0@
                    != entries[i].0@) implies trees[(#[trigger] entries[i]).0@] == entries[i].1@ by {
            if i < last {
                assert(rest[i] == entries[i]);
                assert(entries[last].0@ != entries[i].0@);
                assert forall|j: int| i < j < rest.len() implies (#[trigger] rest[j]).0@
                    != rest[i].0@ by {
                    assert(entries[j].0@ != entries[i].0@);
                }
            }
        }
    }
}

/// A value says what it is made of. An object says of each of its keys the value
/// of the last entry with that key, and has no other key.
pub proof fn law_value_says_what_it_holds(json: Json)
    ensures
        match json {
            Json::Null => json@ is Null,
            Json::Bool(value) => json@ == JsonTree::Bool(value),
            Json::Number(number) => json@ == JsonTree::Number(number),
            Json::Text(text) => json@ == JsonTree::Text(text@),
            Json::Array(items) => {
                &&& json@ is Array
                &&& json@->Array_0.len() == items@.len()
                &&& forall|i: int|
                    0 <= i < items@.len() ==> #[trigger] json@->Array_0[i] == items@[i]@
            },
            Json::Object(entries) => {
                &&& json@ is Object
                &&& forall|key: Seq<char>| #[trigger]
                    json@->Object_0.contains_key(key) ==> exists|i: int|
                        0 <= i < entries@.len() && (#[trigger] entries@[i]).0@ == key
                &&& forall|i: int|
                    0 <= i < entries@.len() ==> json@->Object_0.contains_key(
                        (#[trigger] entries@[i]).0@,
                    )
                &&& forall|i: int|
                    0 <= i < entries@.len() && (forall|j: int|
                        i < j < entries@.len() ==> (#[trigger] entries@[j]).0@ != entries@[i].0@)
                        ==> json@->Object_0[(#[trigger] entries@[i]).0@] == entries@[i].1@
            },
        },
{
    if json is Object {
        lemma_entries(json->Object_0@);
    }
}

/// A parsed number is a whole number from zero on where it is one, otherwise a
/// signed one where it is one, and otherwise the double with the same bits.
pub proof fn law_number_keeps_its_value(whole: u64, signed: i64, bits: u64)
    ensures
        forall|signed: Option<i64>, bits: Option<u64>| #[trigger]
            number_of(Some(whole), signed, bits) == JsonNumber::PosInt(whole),
        forall|bits: Option<u64>| #[trigger]
            number_of(None, Some(signed), bits) == JsonNumber::NegInt(signed),
        number_of(None, None, Some(bits)) == JsonNumber::Float(bits),
{
}

/// The members of a parsed object.
proof fn lemma_member_keys(members: Seq<(String, &Value)>, key: Seq<char>)
    ensures
        member_trees(members).contains_key(key) ==> exists|at: int|
            0 <= at < members.len() && (#[trigger] members[at]).0@ == key,
    decreases members.len(),
{
    if members.len() > 0 && member_trees(members).contains_key(key) {
        let last = members.len() - 1;
        if members[last].0@ != key {
            let rest = members.drop_last();
            lemma_member_keys(rest, key);
            let at = choose|at: int| 0 <= at < rest.len() && (#[trigger] rest[at]).0@ == key;
            assert(members[at].0@ == key);
        }
    }
}

/// A parsed object has each member's value at the member's key, and no other key;
/// a parsed list has each item at its place.
pub proof fn law_parsed_object_and_list_keep_all(
    members: Seq<(String, &Value)>,
    values: Seq<Value>,
    at: int,
)
    requires
        distinct_keys(members),
    ensures
        forall|key: Seq<char>| #[trigger]
            member_trees(members).contains_key(key) ==> exists|at: int|
                0 <= at < members.len() && (#[trigger] members[at]).0@ == key,
        0 <= at < members.len() ==> {
            &&& member_trees(members).contains_key(members[at].0@)
            &&& member_trees(members)[members[at].0@] == value_tree(*members[at].1)
        },
        value_trees(values).len() == values.len(),
        0 <= at < values.len() ==> value_trees(values)[at] == value_tree(values[at]),
{
    assert forall|key: Seq<char>| #[trigger]
        member_trees(members).contains_key(key) implies exists|at: int|
        0 <= at < members.len() && (#[trigger] members[at]).0@ == key by {
        lemma_member_keys(members, key);
    }
    if 0 <= at < members.len() {
        crate::parse::lemma_member(members, at);
    }
}

} // verus!
