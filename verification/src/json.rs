//! JSON values as plain data, read and written by `serde_json`.
//!
//! `Json` mirrors `serde_json::Value` variant by variant, so that the rest of
//! the library can take a value apart under proof. `parse` and `render` go
//! between text and `Json` by way of `serde_json`. The four functions that
//! touch a `serde_json::Value` are taken on trust; above each stands what it
//! claims.

use vstd::prelude::*;

verus! {

/// `serde_json::Number`. A number is carried through as it is: nothing in
/// the library looks into one.
#[verifier::external_type_specification]
#[verifier::external_body]
pub struct ExNumber(serde_json::Number);

/// `serde_json::Value`. It is read, written and converted, never looked
/// into.
#[verifier::external_type_specification]
#[verifier::external_body]
pub struct ExValue(serde_json::Value);

/// A JSON value. A record lists its fields as pairs; where a name occurs
/// more than once, the last pair counts.
#[derive(Debug, PartialEq)]
pub enum Json {
    Null,
    Bool(bool),
    Number(serde_json::Number),
    Text(String),
    List(Vec<Json>),
    Record(Vec<(String, Json)>),
}

/// What a `Json` stands for. A record is a map from field names to values:
/// the order of its fields carries no meaning.
pub enum JsonTree {
    Null,
    Bool(bool),
    Number(serde_json::Number),
    Text(Seq<char>),
    List(Seq<JsonTree>),
    Record(Map<Seq<char>, JsonTree>),
}

/// The map that results from setting the fields one after another.
pub open spec fn record_of(fields: Seq<(Seq<char>, JsonTree)>) -> Map<Seq<char>, JsonTree>
    decreases fields.len(),
{
    if fields.len() == 0 {
        Map::empty()
    } else {
        record_of(fields.drop_last()).insert(fields.last().0, fields.last().1)
    }
}

/// What the items of a list stand for, in order.
pub open spec fn trees_of(items: Seq<Json>) -> Seq<JsonTree>
    decreases items,
{
    Seq::new(
        items.len(),
        |i: int|
            if 0 <= i < items.len() {
                items[i].view()
            } else {
                JsonTree::Null
            },
    )
}

/// The fields of a record as pairs of a name and what its value stands for,
/// in the order in which they are listed.
pub open spec fn pairs_of(fields: Seq<(String, Json)>) -> Seq<(Seq<char>, JsonTree)>
    decreases fields,
{
    Seq::new(
        fields.len(),
        |i: int|
            if 0 <= i < fields.len() {
                (fields[i].0@, fields[i].1.view())
            } else {
                (Seq::empty(), JsonTree::Null)
            },
    )
}

impl View for Json {
    type V = JsonTree;

    open spec fn view(&self) -> JsonTree
        decreases self,
    {
        match self {
            Json::Null => JsonTree::Null,
            Json::Bool(b) => JsonTree::Bool(*b),
            Json::Number(n) => JsonTree::Number(*n),
            Json::Text(s) => JsonTree::Text(s@),
            Json::List(items) => JsonTree::List(trees_of(items@)),
            Json::Record(fields) => JsonTree::Record(record_of(pairs_of(fields@))),
        }
    }
}

/// The value of the field `name` of `tree`, where `tree` is a record that has
/// such a field.
pub open spec fn field_of(tree: JsonTree, name: Seq<char>) -> Option<JsonTree> {
    match tree {
        JsonTree::Record(fields) => if fields.contains_key(name) {
            Some(fields[name])
        } else {
            None
        },
        _ => None,
    }
}

/// A field that no later field of the same name follows is the one that
/// counts.
pub proof fn lemma_record_last_wins(fields: Seq<(Seq<char>, JsonTree)>, name: Seq<char>, i: int)
    requires
        0 <= i < fields.len(),
        fields[i].0 == name,
        forall|j: int| i < j < fields.len() ==> fields[j].0 != name,
    ensures
        record_of(fields).contains_key(name),
        record_of(fields)[name] == fields[i].1,
    decreases fields.len(),
{
    if i < fields.len() - 1 {
        lemma_record_last_wins(fields.drop_last(), name, i);
    }
}

/// A name that no field bears is not in the record.
pub proof fn lemma_record_absent(fields: Seq<(Seq<char>, JsonTree)>, name: Seq<char>)
    requires
        forall|j: int| 0 <= j < fields.len() ==> fields[j].0 != name,
    ensures
        !record_of(fields).contains_key(name),
    decreases fields.len(),
{
    if fields.len() > 0 {
        lemma_record_absent(fields.drop_last(), name);
    }
}

impl Json {
    /// Looks up the field `name`. There is a result exactly when this is a
    /// record with a field of that name; it is the field's value.
    pub fn field(&self, name: &str) -> (found: Option<&Json>)
        ensures
            match found {
                Some(value) => field_of(self@, name@) == Some(value@),
                None => field_of(self@, name@) is None,
            },
    {
        match self {
            Json::Record(fields) => {
                let ghost pairs = pairs_of(fields@);
                let key = name.to_owned();
                let mut i: usize = fields.len();
                while i > 0
                    invariant
                        i <= fields.len(),
                        key@ == name@,
                        self@ == JsonTree::Record(record_of(pairs)),
                        pairs.len() == fields.len(),
                        forall|j: int| 0 <= j < fields.len() ==> pairs[j] == (fields[j].0@, fields[j].1@),
                        forall|j: int| i <= j < fields.len() ==> pairs[j].0 != name@,
                    decreases i,
                {
                    i -= 1;
                    if fields[i].0 == key {
                        proof {
                            lemma_record_last_wins(pairs, name@, i as int);
                        }
                        return Some(&fields[i].1);
                    }
                }
                proof {
                    lemma_record_absent(pairs, name@);
                }
                None
            },
            _ => None,
        }
    }
}

/// The value that `serde_json::from_str` reads from a text, or nothing where
/// it rejects the text.
pub uninterp spec fn json_parse(text: Seq<char>) -> Option<JsonTree>;

/// The text that `serde_json` writes for a value in its compact form. Which
/// fields a record has decides the text, not the order in which they were
/// listed: `serde_json` keeps the fields of an object sorted by name.
pub uninterp spec fn json_text(tree: JsonTree) -> Seq<char>;

/// How deep a value may nest for `render` to promise that its text reads
/// back. The reader of `serde_json` gives up at 128 levels; this stays well
/// below.
pub const PLAIN_DEPTH: usize = 64;

/// Whether `tree` holds no number and nests lists and records at most `depth`
/// deep.
pub open spec fn plain_within(tree: JsonTree, depth: nat) -> bool
    decreases depth,
{
    match tree {
        JsonTree::Null => true,
        JsonTree::Bool(_) => true,
        JsonTree::Text(_) => true,
        JsonTree::Number(_) => false,
        JsonTree::List(items) => depth > 0 && forall|i: int|
            0 <= i < items.len() ==> plain_within(#[trigger] items[i], (depth - 1) as nat),
        JsonTree::Record(fields) => depth > 0 && forall|name: Seq<char>|
            fields.contains_key(name) ==> plain_within(#[trigger] fields[name], (depth - 1) as nat),
    }
}

/// What a `serde_json::Value` holds.
pub uninterp spec fn value_tree(value: serde_json::Value) -> JsonTree;

/// Calls `serde_json::from_str`, asked for a `serde_json::Value`.
///
/// Not proved: the contract gives what is read a name, `json_parse`, the
/// value that the text spells or nothing where `serde_json` rejects the text,
/// and claims that the empty text is rejected.
#[verifier::external_body]
fn read_value(text: &str) -> (value: Option<serde_json::Value>)
    ensures
        match value {
            Some(v) => json_parse(text@) == Some(value_tree(v)),
            None => json_parse(text@) is None,
        },
        text@.len() == 0 ==> value is None,
{
    serde_json::from_str::<serde_json::Value>(text).ok()
}

/// Calls `to_string` of `serde_json::Value`, which writes the value as
/// compact JSON text.
///
/// Not proved: the contract gives the text a name, `json_text`, and claims
/// that `serde_json::from_str` reads the text back as the same value, where
/// the value holds no number and nests at most `PLAIN_DEPTH` deep.
#[verifier::external_body]
fn write_value(value: &serde_json::Value) -> (text: String)
    ensures
        text@ == json_text(value_tree(*value)),
        plain_within(value_tree(*value), PLAIN_DEPTH as nat) ==> json_parse(text@) == Some(
            value_tree(*value),
        ),
{
    value.to_string()
}

/// Turns a `serde_json::Value` into a `Json`, variant by variant. The fields
/// of an object come in the order of `serde_json::Map`, each name once.
///
/// Not proved: the `Json` stands for what the value holds.
#[verifier::external_body]
fn json_of(value: serde_json::Value) -> (doc: Json)
    ensures
        doc@ == value_tree(value),
{
    match value {
        serde_json::Value::Null => Json::Null,
        serde_json::Value::Bool(b) => Json::Bool(b),
        serde_json::Value::Number(n) => Json::Number(n),
        serde_json::Value::String(s) => Json::Text(s),
        serde_json::Value::Array(items) => Json::List(items.into_iter().map(json_of).collect()),
        serde_json::Value::Object(fields) => Json::Record(
            fields.into_iter().map(|(name, v)| (name, json_of(v))).collect(),
        ),
    }
}

/// Turns a `Json` into a `serde_json::Value`, variant by variant. The fields
/// of a record are set with `serde_json::Map::insert` in the order in which
/// they are listed, so that the last one of a name stays.
///
/// Not proved: the value holds what the `Json` stands for.
#[verifier::external_body]
fn value_of(doc: &Json) -> (value: serde_json::Value)
    ensures
        value_tree(value) == doc@,
{
    match doc {
        Json::Null => serde_json::Value::Null,
        Json::Bool(b) => serde_json::Value::Bool(*b),
        Json::Number(n) => serde_json::Value::Number(n.clone()),
        Json::Text(s) => serde_json::Value::String(s.clone()),
        Json::List(items) => serde_json::Value::Array(items.iter().map(value_of).collect()),
        Json::Record(fields) => {
            let mut map = serde_json::Map::new();
            fields.iter().for_each(|(name, v)| { map.insert(name.clone(), value_of(v)); });
            serde_json::Value::Object(map)
        },
    }
}

/// Reads a text as JSON. There is a result exactly when `serde_json` accepts
/// the text, and it stands for the value that `serde_json` reads. The empty
/// text is not accepted.
pub fn parse(text: &str) -> (doc: Option<Json>)
    ensures
        match doc {
            Some(d) => json_parse(text@) == Some(d@),
            None => json_parse(text@) is None,
        },
        text@.len() == 0 ==> doc is None,
{
    match read_value(text) {
        Some(value) => Some(json_of(value)),
        None => None,
    }
}

/// Writes a value as compact JSON text. A value that holds no number and
/// nests at most `PLAIN_DEPTH` deep is read back from its text unchanged.
pub fn render(doc: &Json) -> (text: String)
    ensures
        text@ == json_text(doc@),
        plain_within(doc@, PLAIN_DEPTH as nat) ==> json_parse(text@) == Some(doc@),
{
    let value = value_of(doc);
    write_value(&value)
}

} // verus!
