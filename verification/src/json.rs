//! JSON values.
//!
//! [`Json`] holds a JSON value in plain data; [`Tree`] is its mathematical
//! model, in which an object is a map from keys to values. Reading JSON text
//! and writing it are `serde_json`'s work.

use vstd::prelude::*;

use crate::text::same;

verus! {

/// A JSON number as `serde_json` holds it; the library only carries it.
#[verifier::external_type_specification]
#[verifier::external_body]
pub struct ExNumber(serde_json::Number);

/// What `serde_json` reports of a text that it cannot read.
#[verifier::external_type_specification]
#[verifier::external_body]
pub struct ExError(serde_json::Error);

/// A JSON value as `serde_json` holds it.
#[verifier::external_type_specification]
#[verifier::external_body]
pub struct ExValue(serde_json::Value);

/// A JSON value. Where a key occurs in an object more than once, the last
/// entry counts.
#[derive(Debug, PartialEq)]
pub enum Json {
    Null,
    Bool(bool),
    Number(serde_json::Number),
    Text(String),
    Array(Vec<Json>),
    Object(Vec<(String, Json)>),
}

/// The model of a JSON value.
pub enum Tree {
    Null,
    Bool(bool),
    Number(serde_json::Number),
    Text(Seq<char>),
    Array(Seq<Tree>),
    Object(Map<Seq<char>, Tree>),
}

/// The model of `j`.
pub open spec fn json_tree(j: Json) -> Tree
    decreases j,
{
    match j {
        Json::Null => Tree::Null,
        Json::Bool(b) => Tree::Bool(b),
        Json::Number(n) => Tree::Number(n),
        Json::Text(s) => Tree::Text(s@),
        Json::Array(items) => Tree::Array(array_tree(items@)),
        Json::Object(entries) => Tree::Object(object_tree(entries@)),
    }
}

/// The models of the items of an array.
pub open spec fn array_tree(items: Seq<Json>) -> Seq<Tree>
    decreases items,
{
    if items.len() == 0 {
        Seq::empty()
    } else {
        array_tree(items.drop_last()).push(json_tree(items.last()))
    }
}

/// The map that the entries of an object make up.
pub open spec fn object_tree(entries: Seq<(String, Json)>) -> Map<Seq<char>, Tree>
    decreases entries,
{
    if entries.len() == 0 {
        Map::empty()
    } else {
        object_tree(entries.drop_last()).insert(entries.last().0@, json_tree(entries.last().1))
    }
}

impl View for Json {
    type V = Tree;

    open spec fn view(&self) -> Tree {
        json_tree(*self)
    }
}

impl DeepView for Json {
    type V = Tree;

    open spec fn deep_view(&self) -> Tree {
        json_tree(*self)
    }
}

/// What stands under `key` in `t`; nothing where `t` is no object.
pub open spec fn tree_get(t: Tree, key: Seq<char>) -> Option<Tree> {
    match t {
        Tree::Object(m) => if m.contains_key(key) {
            Some(m[key])
        } else {
            None
        },
        _ => None,
    }
}

/// The text that `t` is.
pub open spec fn tree_str(t: Option<Tree>) -> Option<Seq<char>> {
    match t {
        Some(Tree::Text(s)) => Some(s),
        _ => None,
    }
}

/// The text under `key` in `t`.
pub open spec fn tree_str_at(t: Tree, key: Seq<char>) -> Option<Seq<char>> {
    tree_str(tree_get(t, key))
}

// ---------------------------------------------------------------------------
// Reading and writing JSON text
// ---------------------------------------------------------------------------

/// What a `serde_json::Value` holds.
pub uninterp spec fn value_tree(value: serde_json::Value) -> Tree;

/// The value that `serde_json` reads from a text; nothing where it reports an
/// error.
pub uninterp spec fn parsed_json(text: Seq<char>) -> Option<Tree>;

/// The text that `serde_json` writes for a value; nothing where it reports an
/// error.
pub uninterp spec fn written_json(tree: Tree) -> Option<Seq<char>>;

/// The number that `serde_json` makes of an integer.
pub uninterp spec fn json_number(n: u64) -> serde_json::Number;

/// `serde_json::Number::from`: an integer as a JSON number.
pub assume_specification[ <serde_json::Number as From<u64>>::from ](n: u64) -> (r:
    serde_json::Number)
    ensures
        r == json_number(n),
;

/// `serde_json::Number::clone` gives the same number again.
pub assume_specification[ <serde_json::Number as Clone>::clone ](n: &serde_json::Number) -> (r:
    serde_json::Number)
    ensures
        r == *n,
;

/// Converts `serde_json::Value` into [`Json`], variant by variant; the result
/// holds what the value held.
#[verifier::external_body]
fn from_value(value: serde_json::Value) -> (r: Json)
    ensures
        r@ == value_tree(value),
{
    match value {
        serde_json::Value::Null => Json::Null,
        serde_json::Value::Bool(b) => Json::Bool(b),
        serde_json::Value::Number(n) => Json::Number(n),
        serde_json::Value::String(s) => Json::Text(s),
        serde_json::Value::Array(items) => Json::Array(items.into_iter().map(from_value).collect()),
        serde_json::Value::Object(entries) => Json::Object(
            entries.into_iter().map(|(key, item)| (key, from_value(item))).collect(),
        ),
    }
}

/// Converts [`Json`] into `serde_json::Value`, variant by variant; the result
/// holds what the argument held. A later entry of an object replaces an
/// earlier one with its key.
#[verifier::external_body]
fn to_value(json: Json) -> (r: serde_json::Value)
    ensures
        value_tree(r) == json@,
{
    match json {
        Json::Null => serde_json::Value::Null,
        Json::Bool(b) => serde_json::Value::Bool(b),
        Json::Number(n) => serde_json::Value::Number(n),
        Json::Text(s) => serde_json::Value::String(s),
        Json::Array(items) => serde_json::Value::Array(items.into_iter().map(to_value).collect()),
        Json::Object(entries) => serde_json::Value::Object(
            entries.into_iter().map(|(key, item)| (key, to_value(item))).collect(),
        ),
    }
}

/// `serde_json::from_str`: the value that a JSON text stands for. The text
/// alone decides whether there is one and what it holds.
#[verifier::external_body]
fn value_of_text(text: &str) -> (r: Result<serde_json::Value, serde_json::Error>)
    ensures
        match r {
            Ok(value) => parsed_json(text@) == Some(value_tree(value)),
            Err(_) => parsed_json(text@) is None,
        },
{
    serde_json::from_str::<serde_json::Value>(text)
}

/// `serde_json::to_string`: the JSON text of a value, with the members of an
/// object in the order of their keys. What the value holds decides the text.
#[verifier::external_body]
fn text_of_value(value: &serde_json::Value) -> (r: Result<String, serde_json::Error>)
    ensures
        match r {
            Ok(text) => written_json(value_tree(*value)) == Some(text@),
            Err(_) => written_json(value_tree(*value)) is None,
        },
{
    serde_json::to_string(value)
}

/// Reads a JSON text.
pub(crate) fn parse(text: &str) -> (r: Result<Json, serde_json::Error>)
    ensures
        match r {
            Ok(json) => parsed_json(text@) == Some(json@),
            Err(_) => parsed_json(text@) is None,
        },
{
    match value_of_text(text) {
        Ok(value) => Ok(from_value(value)),
        Err(e) => Err(e),
    }
}

/// Writes a value as JSON text.
pub(crate) fn to_text(json: Json) -> (r: Result<String, serde_json::Error>)
    ensures
        match r {
            Ok(text) => written_json(json@) == Some(text@),
            Err(_) => written_json(json@) is None,
        },
{
    text_of_value(&to_value(json))
}

/// The message of a `serde_json::Error`, as its `to_string` gives it. What the
/// message says is left open.
#[verifier::external_body]
pub(crate) fn error_message(e: &serde_json::Error) -> String {
    e.to_string()
}

/// The JSON text of a value, or `fallback` where it cannot be written.
pub open spec fn json_text(tree: Tree, fallback: Seq<char>) -> Seq<char> {
    match written_json(tree) {
        Some(text) => text,
        None => fallback,
    }
}

/// The JSON text of `json`, or `fallback` where it cannot be written.
pub fn text_or(json: &Json, fallback: &str) -> (r: String)
    ensures
        r@ == json_text(json@, fallback@),
{
    match to_text(json.clone()) {
        Ok(text) => text,
        Err(_) => fallback.to_string(),
    }
}

// ---------------------------------------------------------------------------
// Objects
// ---------------------------------------------------------------------------

/// Where a key stands for the last time, its entry is what the object holds
/// under it.
proof fn object_tree_at(entries: Seq<(String, Json)>, i: int)
    requires
        0 <= i < entries.len(),
        forall|k: int| i < k < entries.len() ==> entries[k].0@ != entries[i].0@,
    ensures
        object_tree(entries).contains_key(entries[i].0@),
        object_tree(entries)[entries[i].0@] == entries[i].1@,
    decreases entries.len(),
{
    if i < entries.len() - 1 {
        object_tree_at(entries.drop_last(), i);
    }
}

/// A key that no entry has is not in the object.
proof fn object_tree_without(entries: Seq<(String, Json)>, key: Seq<char>)
    requires
        forall|k: int| 0 <= k < entries.len() ==> (#[trigger] entries[k]).0@ != key,
    ensures
        !object_tree(entries).contains_key(key),
    decreases entries.len(),
{
    if entries.len() > 0 {
        object_tree_without(entries.drop_last(), key);
    }
}

/// Appends an entry to the entries of an object.
pub fn put(entries: &mut Vec<(String, Json)>, key: &str, value: Json)
    ensures
        object_tree(final(entries)@) == object_tree(old(entries)@).insert(key@, value@),
{
    let ghost before = entries@;
    entries.push((key.to_string(), value));
    assert(entries@.drop_last() =~= before);
}

/// The entries without those of `key`.
pub fn without(entries: Vec<(String, Json)>, key: &str) -> (r: Vec<(String, Json)>)
    ensures
        object_tree(r@) == object_tree(entries@).remove(key@),
{
    let mut out: Vec<(String, Json)> = Vec::new();
    let mut i: usize = 0;
    assert(entries@.take(0) =~= Seq::<(String, Json)>::empty());
    assert(object_tree(out@) =~= object_tree(entries@.take(0)).remove(key@));
    while i < entries.len()
        invariant
            i <= entries@.len(),
            object_tree(out@) == object_tree(entries@.take(i as int)).remove(key@),
        decreases entries.len() - i,
    {
        assert(entries@.take(i + 1).drop_last() =~= entries@.take(i as int));
        let ghost before = object_tree(entries@.take(i as int));
        let name = entries[i].0.clone();
        if !same(name.as_str(), key) {
            let value = entries[i].1.clone();
            let ghost item = value@;
            let ghost kept = out@;
            out.push((name, value));
            assert(out@.drop_last() =~= kept);
            assert(before.remove(key@).insert(name@, item) =~= before.insert(name@, item).remove(
                key@,
            ));
        } else {
            assert(before.insert(name@, entries@[i as int].1@).remove(key@) =~= before.remove(key@));
        }
        i += 1;
    }
    assert(entries@.take(i as int) =~= entries@);
    out
}

/// What stands under `key` in the entries of an object.
pub fn entry<'a>(entries: &'a Vec<(String, Json)>, key: &str) -> (r: Option<&'a Json>)
    ensures
        match r {
            Some(value) => object_tree(entries@).contains_key(key@) && object_tree(entries@)[key@]
                == value@,
            None => !object_tree(entries@).contains_key(key@),
        },
{
    let mut i: usize = entries.len();
    while i > 0
        invariant
            i <= entries@.len(),
            forall|k: int| i <= k < entries@.len() ==> (#[trigger] entries@[k]).0@ != key@,
        decreases i,
    {
        i -= 1;
        if same(entries[i].0.as_str(), key) {
            proof {
                object_tree_at(entries@, i as int);
            }
            return Some(&entries[i].1);
        }
    }
    proof {
        object_tree_without(entries@, key@);
    }
    None
}

// ---------------------------------------------------------------------------
// Values
// ---------------------------------------------------------------------------

/// The models of the items, one by one.
pub proof fn array_tree_items(items: Seq<Json>)
    ensures
        array_tree(items).len() == items.len(),
        forall|i: int| 0 <= i < items.len() ==> #[trigger] array_tree(items)[i] == items[i]@,
    decreases items.len(),
{
    if items.len() > 0 {
        array_tree_items(items.drop_last());
    }
}

impl Clone for Json {
    fn clone(&self) -> (r: Json)
        ensures
            r@ == self@,
        decreases self,
    {
        match self {
            Json::Null => Json::Null,
            Json::Bool(b) => Json::Bool(*b),
            Json::Number(n) => Json::Number(n.clone()),
            Json::Text(s) => Json::Text(s.clone()),
            Json::Array(items) => {
                let mut out: Vec<Json> = Vec::new();
                let mut i: usize = 0;
                assert(items@.take(0) =~= Seq::<Json>::empty());
                while i < items.len()
                    invariant
                        i <= items@.len(),
                        array_tree(out@) == array_tree(items@.take(i as int)),
                        decreases_to!(self => items),
                    decreases items.len() - i,
                {
                    let item = items[i].clone();
                    let ghost before = out@;
                    out.push(item);
                    assert(out@.drop_last() =~= before);
                    assert(items@.take(i + 1).drop_last() =~= items@.take(i as int));
                    i += 1;
                }
                assert(items@.take(i as int) =~= items@);
                Json::Array(out)
            },
            Json::Object(entries) => {
                let mut out: Vec<(String, Json)> = Vec::new();
                let mut i: usize = 0;
                assert(entries@.take(0) =~= Seq::<(String, Json)>::empty());
                while i < entries.len()
                    invariant
                        i <= entries@.len(),
                        object_tree(out@) == object_tree(entries@.take(i as int)),
                        decreases_to!(self => entries),
                    decreases entries.len() - i,
                {
                    let item = entries[i].1.clone();
                    put(&mut out, entries[i].0.as_str(), item);
                    assert(entries@.take(i + 1).drop_last() =~= entries@.take(i as int));
                    i += 1;
                }
                assert(entries@.take(i as int) =~= entries@);
                Json::Object(out)
            },
        }
    }
}

impl Json {
    /// A text.
    pub fn text(s: &str) -> (r: Json)
        ensures
            r@ == Tree::Text(s@),
    {
        Json::Text(s.to_string())
    }

    /// An integer.
    pub fn number(n: u64) -> (r: Json)
        ensures
            r@ == Tree::Number(json_number(n)),
    {
        Json::Number(serde_json::Number::from(n))
    }

    /// What stands under `key`; nothing where this is no object.
    pub fn get(&self, key: &str) -> (r: Option<&Json>)
        ensures
            match r {
                Some(value) => tree_get(self@, key@) == Some(value@),
                None => tree_get(self@, key@) is None,
            },
    {
        match self {
            Json::Object(entries) => entry(entries, key),
            _ => None,
        }
    }

    /// The text that this is.
    pub fn as_str(&self) -> (r: Option<&str>)
        ensures
            match r {
                Some(s) => self@ == Tree::Text(s@),
                None => !(self@ is Text),
            },
    {
        match self {
            Json::Text(s) => Some(s.as_str()),
            _ => None,
        }
    }

    /// The truth value that this is.
    pub fn as_bool(&self) -> (r: Option<bool>)
        ensures
            match r {
                Some(b) => self@ == Tree::Bool(b),
                None => !(self@ is Bool),
            },
    {
        match self {
            Json::Bool(b) => Some(*b),
            _ => None,
        }
    }

    /// The items of the array that this is.
    pub fn as_array(&self) -> (r: Option<&Vec<Json>>)
        ensures
            match r {
                Some(items) => self@ == Tree::Array(array_tree(items@)),
                None => !(self@ is Array),
            },
    {
        match self {
            Json::Array(items) => Some(items),
            _ => None,
        }
    }

    /// The text under `key`.
    pub fn str_at(&self, key: &str) -> (r: Option<&str>)
        ensures
            match r {
                Some(s) => tree_str_at(self@, key@) == Some(s@),
                None => tree_str_at(self@, key@) is None,
            },
    {
        match self.get(key) {
            Some(value) => value.as_str(),
            None => None,
        }
    }
}

} // verus!
