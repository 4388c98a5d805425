//! Reading JSON text, with `serde_json`.
use serde_json::Value;
use vstd::prelude::*;

use crate::json::Json;
use crate::json::JsonNumber;
use crate::json::JsonTree;

verus! {

/// `serde_json::Value`, a parsed JSON value.
#[verifier::external_type_specification]
#[verifier::external_body]
pub struct ExValue(serde_json::Value);

/// What a `serde_json::Value` holds.
pub uninterp spec fn value_tree(value: serde_json::Value) -> JsonTree;

/// What `serde_json::from_str` makes of a text: a value, or the words of its
/// error.
pub uninterp spec fn parsed_text(text: Seq<char>) -> Result<JsonTree, Seq<char>>;

/// What `serde_json::from_slice` makes of bytes: a value, unless it fails.
pub uninterp spec fn parsed_bytes(bytes: Seq<u8>) -> Option<JsonTree>;

/// The outermost layer of a `serde_json::Value`.
enum Layer<'a> {
    Null,
    Bool(bool),
    /// What `as_u64`, `as_i64` and, by its bits, `as_f64` make of the number.
    Number { whole: Option<u64>, signed: Option<i64>, double: Option<u64> },
    Text(String),
    Array(&'a Vec<Value>),
    Object(Vec<(String, &'a Value)>),
}

/// The number that is `whole` as a `u64`, `signed` as an `i64` and `double`, by
/// its bits, as a floating point number.
pub open spec fn number_of(whole: Option<u64>, signed: Option<i64>, double: Option<u64>) -> JsonNumber {
    match (whole, signed) {
        (Some(n), _) => JsonNumber::PosInt(n),
        (None, Some(n)) => JsonNumber::NegInt(n),
        (None, None) => JsonNumber::Float(double->0),
    }
}

/// What the values of a list hold.
pub open spec fn value_trees(values: Seq<Value>) -> Seq<JsonTree> {
    Seq::new(values.len(), |i: int| value_tree(values[i]))
}

/// What the entries of an object hold.
pub open spec fn member_trees(members: Seq<(String, &Value)>) -> Map<Seq<char>, JsonTree>
    decreases members.len(),
{
    if members.len() == 0 {
        Map::empty()
    } else {
        member_trees(members.drop_last()).insert(
            members.last().0@,
            value_tree(*members.last().1),
        )
    }
}

/// Whether no two members have the same key.
pub open spec fn distinct_keys(members: Seq<(String, &Value)>) -> bool {
    forall|i: int, j: int|
        0 <= i < j < members.len() ==> (#[trigger] members[i]).0@ != (#[trigger] members[j]).0@
}

/// Calls `serde_json::from_str`. The claim is that its result depends on the text
/// alone; which value the text stands for is left to `serde_json`.
#[verifier::external_body]
fn value_from_str(text: &str) -> (parsed: Result<Value, String>)
    ensures
        match parsed {
            Ok(value) => parsed_text(text@) == Ok::<JsonTree, Seq<char>>(value_tree(value)),
            Err(message) => parsed_text(text@) == Err::<JsonTree, Seq<char>>(message@),
        },
{
    serde_json::from_str::<Value>(text).map_err(|error| error.to_string())
}

/// Calls `serde_json::from_slice`. The claim is that its result depends on the
/// bytes alone; which value they stand for is left to `serde_json`.
#[verifier::external_body]
fn value_from_slice(bytes: &[u8]) -> (parsed: Option<Value>)
    ensures
        match parsed {
            Some(value) => parsed_bytes(bytes@) == Some(value_tree(value)),
            None => parsed_bytes(bytes@) is None,
        },
{
    serde_json::from_slice::<Value>(bytes).ok()
}

/// Tells the variants of `serde_json::Value` apart. The claim is that a value
/// holds what its variant's field holds, that `as_u64`, `as_i64` and `as_f64`
/// tell which number it is, the last of them for every number, and that an object
/// has no key twice.
#[verifier::external_body]
fn layer(value: &Value) -> (layer: Layer)
    ensures
        match layer {
            Layer::Null => value_tree(*value) is Null,
            Layer::Bool(b) => value_tree(*value) == JsonTree::Bool(b),
            Layer::Number { whole, signed, double } => value_tree(*value) == JsonTree::Number(
                number_of(whole, signed, double),
            ) && double is Some,
            Layer::Text(text) => value_tree(*value) == JsonTree::Text(text@),
            Layer::Array(values) => value_tree(*value) == JsonTree::Array(value_trees(values@)),
            Layer::Object(members) => value_tree(*value) == JsonTree::Object(member_trees(members@))
                && distinct_keys(members@),
        },
{
    match value {
        Value::Null => Layer::Null,
        Value::Bool(b) => Layer::Bool(*b),
        Value::Number(number) => Layer::Number {
            whole: number.as_u64(),
            signed: number.as_i64(),
            double: number.as_f64().map(|double| double.to_bits()),
        },
        Value::String(text) => Layer::Text(text.clone()),
        Value::Array(values) => Layer::Array(values),
        Value::Object(map) => {
            Layer::Object(map.iter().map(|(key, value)| (key.clone(), value)).collect())
        },
    }
}

/// An object has finitely many keys.
proof fn lemma_members_finite(members: Seq<(String, &Value)>)
    ensures
        member_trees(members).dom().finite(),
    decreases members.len(),
{
    if members.len() > 0 {
        lemma_members_finite(members.drop_last());
    }
}

/// A member's value is the object's value at the member's key.
pub(crate) proof fn lemma_member(members: Seq<(String, &Value)>, at: int)
    requires
        distinct_keys(members),
        0 <= at < members.len(),
    ensures
        member_trees(members).contains_key(members[at].0@),
        member_trees(members)[members[at].0@] == value_tree(*members[at].1),
    decreases members.len(),
{
    if at < members.len() - 1 {
        assert(members.drop_last()[at] == members[at]);
        assert(distinct_keys(members.drop_last())) by {
            assert forall|i: int, j: int| 0 <= i < j < members.len() - 1 implies (
            #[trigger] members.drop_last()[i]).0@ != (#[trigger] members.drop_last()[j]).0@ by {
                assert(members[i].0@ != members[j].0@);
            }
        }
        lemma_member(members.drop_last(), at);
        assert(members[at].0@ != members[members.len() - 1].0@);
    }
}

/// The library's own value for a `serde_json::Value`.
fn json_of(value: &Value) -> (json: Json)
    ensures
        json@ == value_tree(*value),
    decreases value_tree(*value),
{
    match layer(value) {
        Layer::Null => Json::Null,
        Layer::Bool(b) => Json::Bool(b),
        Layer::Number { whole, signed, double } => {
            let number = match (whole, signed, double) {
                (Some(n), _, _) => JsonNumber::PosInt(n),
                (None, Some(n), _) => JsonNumber::NegInt(n),
                (None, None, Some(bits)) => JsonNumber::Float(bits),
                (None, None, None) => JsonNumber::Float(0),
            };
            Json::Number(number)
        },
        Layer::Text(text) => Json::Text(text),
        Layer::Array(values) => {
            let mut items: Vec<Json> = Vec::new();
            let mut i: usize = 0;
            while i < values.len()
                invariant
                    value_tree(*value) == JsonTree::Array(value_trees(values@)),
                    i <= values@.len(),
                    items@.len() == i,
                    forall|j: int| 0 <= j < i ==> (#[trigger] items@[j])@ == value_tree(values@[j]),
                decreases values@.len() - i,
            {
                assert(value_tree(*value)->Array_0[i as int] == value_tree(values@[i as int]));
                items.push(json_of(&values[i]));
                i += 1;
            }
            assert(crate::json::item_trees(items@) =~= value_trees(values@));
            Json::Array(items)
        },
        Layer::Object(members) => {
            let mut entries: Vec<(String, Json)> = Vec::new();
            let mut i: usize = 0;
            while i < members.len()
                invariant
                    value_tree(*value) == JsonTree::Object(member_trees(members@)),
                    distinct_keys(members@),
                    i <= members@.len(),
                    crate::json::entry_trees(entries@) == member_trees(members@.take(i as int)),
                decreases members@.len() - i,
            {
                let ghost before = entries@;
                proof {
                    lemma_member(members@, i as int);
                    lemma_members_finite(members@);
                    assert(members@.take(i + 1).drop_last() =~= members@.take(i as int));
                    let trees = value_tree(*value)->Object_0;
                    assert(decreases_to!(trees => trees[members@[i as int].0@]));
                }
                let item = json_of(members[i].1);
                entries.push((members[i].0.clone(), item));
                assert(entries@.drop_last() =~= before);
                i += 1;
            }
            assert(members@.take(i as int) =~= members@);
            Json::Object(entries)
        },
    }
}

/// The value that a JSON text stands for, or what is wrong with the text.
pub fn parse_text(text: &str) -> (parsed: Result<Json, String>)
    ensures
        match parsed {
            Ok(json) => parsed_text(text@) == Ok::<JsonTree, Seq<char>>(json@),
            Err(message) => parsed_text(text@) == Err::<JsonTree, Seq<char>>(message@),
        },
{
    match value_from_str(text) {
        Ok(value) => Ok(json_of(&value)),
        Err(message) => Err(message),
    }
}

/// The value that the bytes of a JSON text stand for, if they are one.
pub fn parse_bytes(bytes: &[u8]) -> (parsed: Option<Json>)
    ensures
        match parsed {
            Some(json) => parsed_bytes(bytes@) == Some(json@),
            None => parsed_bytes(bytes@) is None,
        },
{
    match value_from_slice(bytes) {
        Some(value) => Some(json_of(&value)),
        None => None,
    }
}

} // verus!
