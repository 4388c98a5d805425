//! JSON values.
use vstd::prelude::*;

use crate::text::same_text;

verus! {

/// A JSON number.
#[derive(Clone, Copy, Debug, PartialEq, Eq, Structural)]
pub enum JsonNumber {
    /// A whole number from zero on.
    PosInt(u64),
    /// A whole number below zero.
    NegInt(i64),
    /// Any other number, by the bits of its IEEE 754 double.
    Float(u64),
}

/// A JSON value. Where an object names a key twice, the later entry counts.
#[derive(Debug)]
pub enum Json {
    Null,
    Bool(bool),
    Number(JsonNumber),
    Text(String),
    Array(Vec<Json>),
    Object(Vec<(String, Json)>),
}

/// What a JSON value says: the order of an object's keys does not matter.
#[verifier::ext_equal]
pub enum JsonTree {
    Null,
    Bool(bool),
    Number(JsonNumber),
    Text(Seq<char>),
    Array(Seq<JsonTree>),
    Object(Map<Seq<char>, JsonTree>),
}

impl Json {
    /// What the value says.
    pub open spec fn tree(self) -> JsonTree
        decreases self,
    {
        match self {
            Json::Null => JsonTree::Null,
            Json::Bool(value) => JsonTree::Bool(value),
            Json::Number(number) => JsonTree::Number(number),
            Json::Text(text) => JsonTree::Text(text@),
            Json::Array(items) => JsonTree::Array(item_trees(items@)),
            Json::Object(entries) => JsonTree::Object(entry_trees(entries@)),
        }
    }
}

/// What the values of a list say.
pub open spec fn item_trees(items: Seq<Json>) -> Seq<JsonTree>
    decreases items,
{
    Seq::new(
        items.len(),
        |i: int|
            if 0 <= i < items.len() {
                items[i].tree()
            } else {
                JsonTree::Null
            },
    )
}

/// What the entries of an object say.
pub open spec fn entry_trees(entries: Seq<(String, Json)>) -> Map<Seq<char>, JsonTree>
    decreases entries,
{
    if entries.len() == 0 {
        Map::empty()
    } else {
        entry_trees(entries.drop_last()).insert(entries.last().0@, entries.last().1.tree())
    }
}

impl JsonTree {
    /// The value at a key, if this is an object that has the key.
    pub open spec fn get(self, key: Seq<char>) -> Option<JsonTree> {
        match self {
            JsonTree::Object(entries) => if entries.contains_key(key) {
                Some(entries[key])
            } else {
                None
            },
            _ => None,
        }
    }

    /// The text, if this is one.
    pub open spec fn as_text(self) -> Option<Seq<char>> {
        match self {
            JsonTree::Text(text) => Some(text),
            _ => None,
        }
    }

    /// The text at a key, if there is one.
    pub open spec fn text_at(self, key: Seq<char>) -> Option<Seq<char>> {
        match self.get(key) {
            Some(value) => value.as_text(),
            None => None,
        }
    }

    /// The items, if this is an array.
    pub open spec fn as_array(self) -> Option<Seq<JsonTree>> {
        match self {
            JsonTree::Array(items) => Some(items),
            _ => None,
        }
    }

    /// The items of the array at a key, if there is one.
    pub open spec fn array_at(self, key: Seq<char>) -> Option<Seq<JsonTree>> {
        match self.get(key) {
            Some(value) => value.as_array(),
            None => None,
        }
    }

    /// The object with the value at a key set.
    pub open spec fn with(self, key: Seq<char>, value: JsonTree) -> JsonTree {
        match self {
            JsonTree::Object(entries) => JsonTree::Object(entries.insert(key, value)),
            _ => self,
        }
    }
}

impl View for Json {
    type V = JsonTree;

    open spec fn view(&self) -> JsonTree {
        self.tree()
    }
}

/// Replacing the entry that counts for a key sets the value at the key.
proof fn lemma_replace_entry(entries: Seq<(String, Json)>, at: int, entry: (String, Json))
    requires
        0 <= at < entries.len(),
        entry.0@ == entries[at].0@,
        forall|i: int| at < i < entries.len() ==> (#[trigger] entries[i]).0@ != entry.0@,
    ensures
        entry_trees(entries.update(at, entry)) == entry_trees(entries).insert(entry.0@, entry.1@),
    decreases entries.len(),
{
    let updated = entries.update(at, entry);
    if at == entries.len() - 1 {
        assert(updated.drop_last() =~= entries.drop_last());
        assert(entry_trees(updated) =~= entry_trees(entries).insert(entry.0@, entry.1@));
    } else {
        lemma_replace_entry(entries.drop_last(), at, entry);
        assert(updated.drop_last() =~= entries.drop_last().update(at, entry));
        assert(entries.last().0@ != entry.0@);
        assert(entry_trees(updated) =~= entry_trees(entries).insert(entry.0@, entry.1@));
    }
}

/// A new entry at the end sets the value at its key.
pub proof fn lemma_push_entry(entries: Seq<(String, Json)>, entry: (String, Json))
    ensures
        entry_trees(entries.push(entry)) == entry_trees(entries).insert(entry.0@, entry.1@),
{
    assert(entries.push(entry).drop_last() =~= entries);
}

/// Every entry's key is a key of the object.
proof fn lemma_entry_key(entries: Seq<(String, Json)>, at: int)
    requires
        0 <= at < entries.len(),
    ensures
        entry_trees(entries).contains_key(entries[at].0@),
    decreases entries.len(),
{
    if at < entries.len() - 1 {
        lemma_entry_key(entries.drop_last(), at);
        assert(entries.drop_last()[at] == entries[at]);
    }
}

/// Every key of the object is some entry's key.
proof fn lemma_key_has_entry(entries: Seq<(String, Json)>, key: Seq<char>) -> (at: int)
    requires
        entry_trees(entries).contains_key(key),
    ensures
        0 <= at < entries.len(),
        entries[at].0@ == key,
    decreases entries.len(),
{
    if entries.last().0@ == key {
        entries.len() - 1
    } else {
        let at = lemma_key_has_entry(entries.drop_last(), key);
        assert(entries.drop_last()[at] == entries[at]);
        at
    }
}

/// The position of the entry that counts for a key.
fn entry_position(entries: &Vec<(String, Json)>, key: &str) -> (position: Option<usize>)
    ensures
        match position {
            Some(at) => {
                &&& at < entries@.len()
                &&& entries@[at as int].0@ == key@
                &&& forall|i: int| at < i < entries@.len() ==> (#[trigger] entries@[i]).0@ != key@
                &&& entry_trees(entries@).contains_key(key@)
                &&& entry_trees(entries@)[key@] == entries@[at as int].1@
            },
            None => !entry_trees(entries@).contains_key(key@),
        },
{
    let mut end: usize = entries.len();
    assert(entries@.take(end as int) =~= entries@);
    while end > 0
        invariant
            end <= entries@.len(),
            forall|i: int| end <= i < entries@.len() ==> (#[trigger] entries@[i]).0@ != key@,
            entry_trees(entries@).contains_key(key@) == entry_trees(
                entries@.take(end as int),
            ).contains_key(key@),
            entry_trees(entries@).contains_key(key@) ==> entry_trees(entries@)[key@]
                == entry_trees(entries@.take(end as int))[key@],
        decreases end,
    {
        assert(entries@.take(end as int).drop_last() =~= entries@.take(end - 1));
        end -= 1;
        if same_text(entries[end].0.as_str(), key) {
            return Some(end);
        }
    }
    None
}

impl Json {
    /// The value at a key, if this is an object that has the key.
    pub fn get(&self, key: &str) -> (value: Option<&Json>)
        ensures
            match value {
                Some(value) => self@.get(key@) == Some(value@),
                None => self@.get(key@) is None,
            },
    {
        match self {
            Json::Object(entries) => match entry_position(entries, key) {
                Some(at) => Some(&entries[at].1),
                None => None,
            },
            _ => None,
        }
    }

    /// The text, if this is one.
    pub fn as_str(&self) -> (text: Option<&str>)
        ensures
            match text {
                Some(text) => self@.as_text() == Some(text@),
                None => self@.as_text() is None,
            },
    {
        match self {
            Json::Text(text) => Some(text.as_str()),
            _ => None,
        }
    }

    /// The items, if this is an array.
    pub fn as_array(&self) -> (items: Option<&Vec<Json>>)
        ensures
            match items {
                Some(items) => self@.as_array() == Some(item_trees(items@)),
                None => self@.as_array() is None,
            },
    {
        match self {
            Json::Array(items) => Some(items),
            _ => None,
        }
    }

    /// The text at a key, if there is one.
    pub fn text_at(&self, key: &str) -> (text: Option<&str>)
        ensures
            match text {
                Some(text) => self@.text_at(key@) == Some(text@),
                None => self@.text_at(key@) is None,
            },
    {
        match self.get(key) {
            Some(value) => value.as_str(),
            None => None,
        }
    }

    /// The items of the array at a key, if there is one.
    pub fn array_at(&self, key: &str) -> (items: Option<&Vec<Json>>)
        ensures
            match items {
                Some(items) => self@.array_at(key@) == Some(item_trees(items@)),
                None => self@.array_at(key@) is None,
            },
    {
        match self.get(key) {
            Some(value) => value.as_array(),
            None => None,
        }
    }

    /// A value that says the same.
    fn copy(&self) -> (copy: Json)
        ensures
            copy@ == self@,
        decreases self,
    {
        match self {
            Json::Null => Json::Null,
            Json::Bool(value) => Json::Bool(*value),
            Json::Number(number) => Json::Number(*number),
            Json::Text(text) => Json::Text(text.clone()),
            Json::Array(items) => Json::Array(Self::copy_items(items)),
            Json::Object(entries) => Json::Object(Self::copy_entries(entries)),
        }
    }

    fn copy_items(items: &Vec<Json>) -> (copies: Vec<Json>)
        ensures
            item_trees(copies@) == item_trees(items@),
        decreases items,
    {
        let mut copies: Vec<Json> = Vec::new();
        let mut i: usize = 0;
        while i < items.len()
            invariant
                i <= items@.len(),
                copies@.len() == i,
                forall|j: int| 0 <= j < i ==> (#[trigger] copies@[j])@ == items@[j]@,
            decreases items@.len() - i,
        {
            copies.push(items[i].copy());
            i += 1;
        }
        assert(item_trees(copies@) =~= item_trees(items@));
        copies
    }

    fn copy_entries(entries: &Vec<(String, Json)>) -> (copies: Vec<(String, Json)>)
        ensures
            entry_trees(copies@) == entry_trees(entries@),
        decreases entries,
    {
        let mut copies: Vec<(String, Json)> = Vec::new();
        let mut i: usize = 0;
        while i < entries.len()
            invariant
                i <= entries@.len(),
                entry_trees(copies@) == entry_trees(entries@.take(i as int)),
            decreases entries@.len() - i,
        {
            let entry = (entries[i].0.clone(), entries[i].1.copy());
            proof {
                lemma_push_entry(copies@, entry);
                assert(entries@.take(i + 1).drop_last() =~= entries@.take(i as int));
            }
            copies.push(entry);
            i += 1;
        }
        assert(entries@.take(i as int) =~= entries@);
        copies
    }

    /// Sets the value at a key of an object; any other value stays as it is.
    pub fn set(&mut self, key: &str, value: Json)
        ensures
            final(self)@ == old(self)@.with(key@, value@),
    {
        match self {
            Json::Object(entries) => {
                let entry = (key.to_owned(), value);
                match entry_position(entries, key) {
                    Some(at) => {
                        proof {
                            lemma_replace_entry(entries@, at as int, entry);
                        }
                        entries.set(at, entry);
                    },
                    None => {
                        proof {
                            lemma_push_entry(entries@, entry);
                        }
                        entries.push(entry);
                    },
                }
            },
            _ => {},
        }
    }

    /// Whether two values say the same. Floating point numbers do if they have the
    /// same bits.
    pub fn same_as(&self, other: &Json) -> (same: bool)
        ensures
            same == (self@ == other@),
        decreases self,
    {
        match (self, other) {
            (Json::Null, Json::Null) => true,
            (Json::Bool(a), Json::Bool(b)) => *a == *b,
            (Json::Number(a), Json::Number(b)) => *a == *b,
            (Json::Text(a), Json::Text(b)) => same_text(a.as_str(), b.as_str()),
            (Json::Array(a), Json::Array(b)) => Self::same_items(a, b),
            (Json::Object(a), Json::Object(b)) => Self::same_entries(a, b),
            _ => false,
        }
    }

    /// Whether the items of two arrays say the same.
    fn same_items(a: &Vec<Json>, b: &Vec<Json>) -> (same: bool)
        ensures
            same == (item_trees(a@) == item_trees(b@)),
        decreases a,
    {
        if a.len() != b.len() {
            assert(item_trees(a@).len() != item_trees(b@).len());
            return false;
        }
        let mut i: usize = 0;
        while i < a.len()
            invariant
                a@.len() == b@.len(),
                i <= a@.len(),
                forall|j: int| 0 <= j < i ==> item_trees(a@)[j] == item_trees(b@)[j],
            decreases a@.len() - i,
        {
            if !a[i].same_as(&b[i]) {
                assert(item_trees(a@)[i as int] != item_trees(b@)[i as int]);
                return false;
            }
            i += 1;
        }
        assert(item_trees(a@) =~= item_trees(b@));
        true
    }

    /// Whether the entries of two objects say the same.
    fn same_entries(a: &Vec<(String, Json)>, b: &Vec<(String, Json)>) -> (same: bool)
        ensures
            same == (entry_trees(a@) == entry_trees(b@)),
        decreases a,
    {
        let mut i: usize = 0;
        while i < b.len()
            invariant
                i <= b@.len(),
                forall|j: int|
                    0 <= j < i ==> entry_trees(a@).contains_key((#[trigger] b@[j]).0@),
            decreases b@.len() - i,
        {
            if entry_position(a, b[i].0.as_str()).is_none() {
                proof {
                    lemma_entry_key(b@, i as int);
                }
                return false;
            }
            i += 1;
        }
        let mut i: usize = 0;
        while i < a.len()
            invariant
                i <= a@.len(),
                forall|j: int|
                    0 <= j < i ==> {
                        let key = (#[trigger] a@[j]).0@;
                        &&& entry_trees(b@).contains_key(key)
                        &&& entry_trees(a@)[key] == entry_trees(b@)[key]
                    },
            decreases a@.len() - i,
        {
            proof {
                lemma_entry_key(a@, i as int);
            }
            match (entry_position(a, a[i].0.as_str()), entry_position(b, a[i].0.as_str())) {
                (Some(x), Some(y)) => {
                    if !a[x].1.same_as(&b[y].1) {
                        return false;
                    }
                },
                _ => return false,
            }
            i += 1;
        }
        proof {
            assert forall|key: Seq<char>| entry_trees(a@).contains_key(key)
                <==> entry_trees(b@).contains_key(key) by {
                if entry_trees(a@).contains_key(key) {
                    let at = lemma_key_has_entry(a@, key);
                }
                if entry_trees(b@).contains_key(key) {
                    let at = lemma_key_has_entry(b@, key);
                }
            }
            assert forall|key: Seq<char>| entry_trees(a@).contains_key(key) implies entry_trees(
                a@,
            )[key] == entry_trees(b@)[key] by {
                let at = lemma_key_has_entry(a@, key);
            }
            assert(entry_trees(a@) =~= entry_trees(b@));
        }
        true
    }
}

impl Clone for Json {
    fn clone(&self) -> (copy: Json)
        ensures
            copy@ == self@,
    {
        self.copy()
    }
}

} // verus!
