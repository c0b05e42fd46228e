//! A JSON document tree, with the text form produced and read by `serde_json`.

use vstd::prelude::*;

verus! {

/// A JSON value. A number keeps the text it is written with, so that integers
/// and fractions pass through unchanged.
#[derive(Debug, PartialEq)]
pub enum Json {
    Null,
    Bool(bool),
    Number(String),
    Str(String),
    Array(Vec<Json>),
    Object(Vec<(String, Json)>),
}

/// The mathematical form of a JSON value.
pub enum JsonTree {
    Null,
    Bool(bool),
    Number(Seq<char>),
    Str(Seq<char>),
    Array(Seq<JsonTree>),
    Object(Seq<(Seq<char>, JsonTree)>),
}

/// The tree that `j` holds.
pub open spec fn tree_of(j: Json) -> JsonTree
    decreases j,
{
    match j {
        Json::Null => JsonTree::Null,
        Json::Bool(b) => JsonTree::Bool(b),
        Json::Number(t) => JsonTree::Number(t@),
        Json::Str(s) => JsonTree::Str(s@),
        Json::Array(items) => JsonTree::Array(
            Seq::new(
                items@.len(),
                |i: int|
                    if 0 <= i < items@.len() {
                        tree_of(items@[i])
                    } else {
                        JsonTree::Null
                    },
            ),
        ),
        Json::Object(entries) => JsonTree::Object(
            Seq::new(
                entries@.len(),
                |i: int|
                    if 0 <= i < entries@.len() {
                        (entries@[i].0@, tree_of(entries@[i].1))
                    } else {
                        (Seq::empty(), JsonTree::Null)
                    },
            ),
        ),
    }
}

impl View for Json {
    type V = JsonTree;

    open spec fn view(&self) -> JsonTree {
        tree_of(*self)
    }
}

/// The value stored under `key` in an object's entries: the first entry with
/// that key.
pub open spec fn lookup(entries: Seq<(Seq<char>, JsonTree)>, key: Seq<char>) -> Option<JsonTree>
    decreases entries.len(),
{
    if entries.len() == 0 {
        None
    } else if entries[0].0 == key {
        Some(entries[0].1)
    } else {
        lookup(entries.drop_first(), key)
    }
}

/// The member `key` of `t`, when `t` is an object that has it.
pub open spec fn member(t: JsonTree, key: Seq<char>) -> Option<JsonTree> {
    match t {
        JsonTree::Object(entries) => lookup(entries, key),
        _ => None,
    }
}

/// Looking up a key that the entries before index `i` do not hold.
pub proof fn lemma_lookup_at(entries: Seq<(Seq<char>, JsonTree)>, key: Seq<char>, i: int)
    requires
        0 <= i <= entries.len(),
        forall|j: int| 0 <= j < i ==> entries[j].0 != key,
    ensures
        i < entries.len() && entries[i].0 == key ==> lookup(entries, key) == Some(entries[i].1),
        i == entries.len() ==> lookup(entries, key) is None,
    decreases i,
{
    if i > 0 {
        let rest = entries.drop_first();
        assert forall|j: int| 0 <= j < i - 1 implies rest[j].0 != key by {
            assert(rest[j] == entries[j + 1]);
        }
        lemma_lookup_at(rest, key, i - 1);
    }
}

impl Json {
    /// A copy of this value.
    pub fn deep_copy(&self) -> (r: Json)
        ensures
            r@ == self@,
        decreases self,
    {
        match self {
            Json::Null => Json::Null,
            Json::Bool(b) => Json::Bool(*b),
            Json::Number(t) => Json::Number(t.clone()),
            Json::Str(s) => Json::Str(s.clone()),
            Json::Array(items) => {
                let mut out: Vec<Json> = Vec::new();
                let mut i: usize = 0;
                while i < items.len()
                    invariant
                        *self == Json::Array(*items),
                        i <= items@.len(),
                        out@.len() == i,
                        forall|j: int| 0 <= j < i ==> (#[trigger] out@[j])@ == items@[j]@,
                    decreases items@.len() - i,
                {
                    assert(decreases_to!(*self => (*self)->Array_0));
                    assert(decreases_to!(*items => items@));
                    assert(decreases_to!(items@ => items@[i as int]));
                    out.push(items[i].deep_copy());
                    i = i + 1;
                }
                let r = Json::Array(out);
                assert(r@->Array_0 =~= self@->Array_0);
                r
            },
            Json::Object(entries) => {
                let mut out: Vec<(String, Json)> = Vec::new();
                let mut i: usize = 0;
                while i < entries.len()
                    invariant
                        *self == Json::Object(*entries),
                        i <= entries@.len(),
                        out@.len() == i,
                        forall|j: int|
                            0 <= j < i ==> (#[trigger] out@[j]).0@ == entries@[j].0@ && out@[j].1@
                                == entries@[j].1@,
                    decreases entries@.len() - i,
                {
                    assert(decreases_to!(*self => (*self)->Object_0));
                    assert(decreases_to!(*entries => entries@));
                    assert(decreases_to!(entries@ => entries@[i as int]));
                    assert(decreases_to!(entries@[i as int] => entries@[i as int].1));
                    let v = entries[i].1.deep_copy();
                    out.push((entries[i].0.clone(), v));
                    i = i + 1;
                }
                let r = Json::Object(out);
                assert(r@->Object_0 =~= self@->Object_0);
                r
            },
        }
    }

    /// The member `key`, when this value is an object that has it.
    pub fn get(&self, key: &str) -> (r: Option<&Json>)
        ensures
            r matches Some(v) ==> member(self@, key@) == Some(v@),
            r is None ==> member(self@, key@) is None,
    {
        match self {
            Json::Object(entries) => {
                let ghost tree_entries = self@->Object_0;
                let k = key.to_owned();
                let mut i: usize = 0;
                while i < entries.len()
                    invariant
                        i <= entries@.len(),
                        k@ == key@,
                        self@ == JsonTree::Object(tree_entries),
                        tree_entries.len() == entries@.len(),
                        forall|j: int|
                            0 <= j < entries@.len() ==> #[trigger] tree_entries[j] == (
                                entries@[j].0@,
                                entries@[j].1@,
                            ),
                        forall|j: int| 0 <= j < i ==> tree_entries[j].0 != key@,
                    decreases entries@.len() - i,
                {
                    assert(tree_entries[i as int] == (entries@[i as int].0@, entries@[i as int].1@));
                    if entries[i].0 == k {
                        proof {
                            lemma_lookup_at(tree_entries, key@, i as int);
                        }
                        return Some(&entries[i].1);
                    }
                    i = i + 1;
                }
                proof {
                    lemma_lookup_at(tree_entries, key@, i as int);
                }
                None
            },
            _ => None,
        }
    }
}

/// The view of an object made of `entries`.
pub open spec fn entries_tree(entries: Seq<(String, Json)>) -> Seq<(Seq<char>, JsonTree)> {
    Seq::new(entries.len(), |i: int| (entries[i].0@, entries[i].1@))
}

/// An object entry under the text `key`.
pub fn object_entry(key: &str, value: Json) -> (r: (String, Json))
    ensures
        r.0@ == key@,
        r.1 == value,
{
    (key.to_owned(), value)
}

/// The object made of `entries`.
pub fn object(entries: Vec<(String, Json)>) -> (r: Json)
    ensures
        r@ == JsonTree::Object(entries_tree(entries@)),
{
    let r = Json::Object(entries);
    assert(r@->Object_0 =~= entries_tree(entries@));
    r
}

/// The array made of `items`.
pub fn array(items: Vec<Json>) -> (r: Json)
    ensures
        r@ == JsonTree::Array(Seq::new(items@.len(), |i: int| items@[i]@)),
{
    let r = Json::Array(items);
    assert(r@->Array_0 =~= Seq::new(items@.len(), |i: int| items@[i]@));
    r
}

/// serde_json's JSON value, which only the conversions below look inside.
#[verifier::external_type_specification]
#[verifier::external_body]
pub struct ExJsonValue(serde_json::Value);

/// The tree that serde_json reads from `bytes`, if they are JSON text.
pub uninterp spec fn json_parse(bytes: Seq<u8>) -> Option<JsonTree>;

/// The compact JSON text that serde_json writes for `t`.
pub uninterp spec fn json_text(t: JsonTree) -> Seq<u8>;

/// Relies on serde_json's `Value` enum: moves each node into the matching
/// variant of `Json`, a number as the text serde_json prints for it.
#[verifier::external_body]
fn from_value(v: serde_json::Value) -> Json {
    match v {
        serde_json::Value::Null => Json::Null,
        serde_json::Value::Bool(b) => Json::Bool(b),
        serde_json::Value::Number(n) => Json::Number(n.to_string()),
        serde_json::Value::String(s) => Json::Str(s),
        serde_json::Value::Array(a) => Json::Array(a.into_iter().map(from_value).collect()),
        serde_json::Value::Object(m) => Json::Object(
            m.into_iter().map(|(k, v)| (k, from_value(v))).collect(),
        ),
    }
}

/// Relies on serde_json's `Value` enum and on `serde_json::Number`'s parser for
/// number text; text that is not a number becomes `null`.
#[verifier::external_body]
fn to_value(j: &Json) -> serde_json::Value {
    match j {
        Json::Null => serde_json::Value::Null,
        Json::Bool(b) => serde_json::Value::Bool(*b),
        Json::Number(t) => t.parse().map(serde_json::Value::Number).unwrap_or(serde_json::Value::Null),
        Json::Str(s) => serde_json::Value::String(s.clone()),
        Json::Array(items) => serde_json::Value::Array(items.iter().map(to_value).collect()),
        Json::Object(entries) => serde_json::Value::Object(
            entries.iter().map(|(k, v)| (k.clone(), to_value(v))).collect(),
        ),
    }
}

/// Relies on serde_json::from_slice: reads JSON text into a tree, or fails;
/// the outcome depends on the bytes alone.
#[verifier::external_body]
pub(crate) fn parse_json(bytes: &[u8]) -> (r: Option<Json>)
    ensures
        r matches Some(j) ==> json_parse(bytes@) == Some(j@),
        r is None ==> json_parse(bytes@) is None,
{
    serde_json::from_slice::<serde_json::Value>(bytes).ok().map(from_value)
}

/// Relies on serde_json::to_vec: writes the tree as compact JSON text; the
/// text depends on the tree alone.
#[verifier::external_body]
pub(crate) fn render_json(j: &Json) -> (r: Vec<u8>)
    ensures
        r@ == json_text(j@),
{
    serde_json::to_vec(&to_value(j)).unwrap_or_default()
}

} // verus!
