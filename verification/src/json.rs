//! JSON documents as plain values, and the questions the rest of the library
//! asks of them.

use crate::text::same;
use vstd::prelude::*;

verus! {

/// A JSON number. `signed` and `unsigned` hold its value where it is a whole
/// number in that range; `text` is how it is written.
#[derive(Debug)]
pub struct Number {
    pub signed: Option<i64>,
    pub unsigned: Option<u64>,
    pub text: String,
}

/// A JSON document.
#[derive(Debug)]
pub enum Json {
    Null,
    Bool(bool),
    Number(Number),
    Text(String),
    Array(Vec<Json>),
    Object(Vec<(String, Json)>),
}

/// What a [`Number`] holds.
pub struct NumberView {
    pub signed: Option<i64>,
    pub unsigned: Option<u64>,
    pub text: Seq<char>,
}

/// What a [`Json`] holds.
pub enum JsonView {
    Null,
    Bool(bool),
    Number(NumberView),
    Text(Seq<char>),
    Array(Seq<JsonView>),
    Object(Seq<(Seq<char>, JsonView)>),
}

impl View for Number {
    type V = NumberView;

    open spec fn view(&self) -> NumberView {
        NumberView { signed: self.signed, unsigned: self.unsigned, text: self.text@ }
    }
}

/// The document that a [`Json`] value stands for.
pub open spec fn tree(json: Json) -> JsonView
    decreases json,
{
    match json {
        Json::Null => JsonView::Null,
        Json::Bool(b) => JsonView::Bool(b),
        Json::Number(n) => JsonView::Number(n@),
        Json::Text(s) => JsonView::Text(s@),
        Json::Array(list) => JsonView::Array(
            Seq::new(
                list@.len(),
                |i: int|
                    if 0 <= i < list@.len() {
                        tree(list@[i])
                    } else {
                        JsonView::Null
                    },
            ),
        ),
        Json::Object(entries) => JsonView::Object(
            Seq::new(
                entries@.len(),
                |i: int|
                    if 0 <= i < entries@.len() {
                        (entries@[i].0@, tree(entries@[i].1))
                    } else {
                        (Seq::empty(), JsonView::Null)
                    },
            ),
        ),
    }
}

impl View for Json {
    type V = JsonView;

    open spec fn view(&self) -> JsonView {
        tree(*self)
    }
}

/// The documents that a list of [`Json`] values stands for.
pub open spec fn trees(list: Seq<Json>) -> Seq<JsonView> {
    list.map_values(|json: Json| tree(json))
}

/// The document behind an optional reference.
pub open spec fn opt_tree(json: Option<&Json>) -> Option<JsonView> {
    match json {
        Some(j) => Some(tree(*j)),
        None => None,
    }
}

/// The value of the first entry under `key`.
pub open spec fn entry(entries: Seq<(Seq<char>, JsonView)>, key: Seq<char>) -> Option<JsonView>
    decreases entries.len(),
{
    if entries.len() == 0 {
        None
    } else if entries[0].0 == key {
        Some(entries[0].1)
    } else {
        entry(entries.skip(1), key)
    }
}

/// What an object holds under `key`; nothing for anything but an object.
pub open spec fn field_of(json: Option<JsonView>, key: Seq<char>) -> Option<JsonView> {
    match json {
        Some(JsonView::Object(entries)) => entry(entries, key),
        _ => None,
    }
}

/// The text of a string value.
pub open spec fn text_of(json: Option<JsonView>) -> Option<Seq<char>> {
    match json {
        Some(JsonView::Text(s)) => Some(s),
        _ => None,
    }
}

/// The value of a whole number that fits 64 signed bits.
pub open spec fn i64_of(json: Option<JsonView>) -> Option<i64> {
    match json {
        Some(JsonView::Number(n)) => n.signed,
        _ => None,
    }
}

/// The value of a whole number that fits 64 unsigned bits.
pub open spec fn u64_of(json: Option<JsonView>) -> Option<u64> {
    match json {
        Some(JsonView::Number(n)) => n.unsigned,
        _ => None,
    }
}

/// How a number is written.
pub open spec fn number_text_of(json: Option<JsonView>) -> Option<Seq<char>> {
    match json {
        Some(JsonView::Number(n)) => Some(n.text),
        _ => None,
    }
}

/// The value of `true` or `false`.
pub open spec fn bool_of(json: Option<JsonView>) -> Option<bool> {
    match json {
        Some(JsonView::Bool(b)) => Some(b),
        _ => None,
    }
}

/// The elements of an array.
pub open spec fn array_of(json: Option<JsonView>) -> Option<Seq<JsonView>> {
    match json {
        Some(JsonView::Array(list)) => Some(list),
        _ => None,
    }
}

/// The elements of an array; none for anything but an array.
pub open spec fn elements_of(json: Option<JsonView>) -> Seq<JsonView> {
    match array_of(json) {
        Some(list) => list,
        None => Seq::empty(),
    }
}

/// What an object holds under `key`.
pub fn get<'a>(json: Option<&'a Json>, key: &str) -> (r: Option<&'a Json>)
    ensures
        opt_tree(r) == field_of(opt_tree(json), key@),
{
    match json {
        Some(Json::Object(entries)) => {
            let ghost all = tree(*json->0)->Object_0;
            let mut i: usize = 0;
            assert(all.skip(0) =~= all);
            while i < entries.len()
                invariant
                    i <= entries@.len(),
                    all == tree(Json::Object(*entries))->Object_0,
                    opt_tree(json) == Some(JsonView::Object(all)),
                    entry(all.skip(i as int), key@) == entry(all, key@),
                decreases entries@.len() - i,
            {
                assert(all[i as int] == (entries@[i as int].0@, tree(entries@[i as int].1)));
                assert(all.skip(i as int)[0] == all[i as int]);
                if same(entries[i].0.as_str(), key) {
                    return Some(&entries[i].1);
                }
                assert(all.skip(i as int).skip(1) =~= all.skip(i + 1));
                i += 1;
            }
            None
        },
        _ => None,
    }
}

/// The text of a string value.
pub fn text<'a>(json: Option<&'a Json>) -> (r: Option<&'a str>)
    ensures
        match r {
            Some(s) => text_of(opt_tree(json)) == Some(s@),
            None => text_of(opt_tree(json)) is None,
        },
{
    match json {
        Some(Json::Text(s)) => Some(s.as_str()),
        _ => None,
    }
}

/// The value of a whole number that fits 64 signed bits.
pub fn whole(json: Option<&Json>) -> (r: Option<i64>)
    ensures
        r == i64_of(opt_tree(json)),
{
    match json {
        Some(Json::Number(n)) => n.signed,
        _ => None,
    }
}

/// The value of a whole number that fits 64 unsigned bits.
pub fn unsigned(json: Option<&Json>) -> (r: Option<u64>)
    ensures
        r == u64_of(opt_tree(json)),
{
    match json {
        Some(Json::Number(n)) => n.unsigned,
        _ => None,
    }
}

/// How a number is written.
pub fn number_text<'a>(json: Option<&'a Json>) -> (r: Option<&'a str>)
    ensures
        match r {
            Some(s) => number_text_of(opt_tree(json)) == Some(s@),
            None => number_text_of(opt_tree(json)) is None,
        },
{
    match json {
        Some(Json::Number(n)) => Some(n.text.as_str()),
        _ => None,
    }
}

/// The value of `true` or `false`.
pub fn flag(json: Option<&Json>) -> (r: Option<bool>)
    ensures
        r == bool_of(opt_tree(json)),
{
    match json {
        Some(Json::Bool(b)) => Some(*b),
        _ => None,
    }
}

/// The elements of an array.
pub fn array<'a>(json: Option<&'a Json>) -> (r: Option<&'a Vec<Json>>)
    ensures
        match r {
            Some(list) => array_of(opt_tree(json)) == Some(trees(list@)),
            None => array_of(opt_tree(json)) is None,
        },
{
    match json {
        Some(Json::Array(list)) => {
            assert(tree(*json->0)->Array_0 =~= trees(list@));
            Some(list)
        },
        _ => None,
    }
}

/// The document that a text holds, as serde_json reads it; nothing where the
/// text is not JSON.
pub uninterp spec fn json_document(text: Seq<char>) -> Option<JsonView>;

/// serde_json's own document type, carried from its parser to the conversion.
#[verifier::external_type_specification]
#[verifier::external_body]
pub struct ExValue(serde_json::Value);

/// Converts a `serde_json::Value` into a [`Json`], kind by kind.
#[verifier::external_body]
fn json_from_value(value: serde_json::Value) -> (json: Json) {
    match value {
        serde_json::Value::Null => Json::Null,
        serde_json::Value::Bool(b) => Json::Bool(b),
        serde_json::Value::Number(n) => Json::Number(
            Number { signed: n.as_i64(), unsigned: n.as_u64(), text: n.to_string() },
        ),
        serde_json::Value::String(s) => Json::Text(s),
        serde_json::Value::Array(list) => Json::Array(
            list.into_iter().map(json_from_value).collect(),
        ),
        serde_json::Value::Object(map) => Json::Object(
            map.into_iter().map(|(k, v)| (k, json_from_value(v))).collect(),
        ),
    }
}

/// Calls `serde_json::from_str` for a `serde_json::Value`. The result is a
/// function of the text alone, named [`json_document`]: the document where
/// the text is JSON, nothing where it is not.
#[verifier::external_body]
fn value_from_str(text: &str) -> (json: Option<Json>)
    ensures
        match json {
            Some(j) => json_document(text@) == Some(j@),
            None => json_document(text@) is None,
        },
{
    serde_json::from_str::<serde_json::Value>(text).ok().map(json_from_value)
}

/// Reads a text as JSON.
pub fn parse_json(text: &str) -> (json: Option<Json>)
    ensures
        match json {
            Some(j) => json_document(text@) == Some(j@),
            None => json_document(text@) is None,
        },
{
    value_from_str(text)
}

/// The text that serde_json writes for a document, without white space.
pub uninterp spec fn json_written(json: JsonView) -> Seq<char>;

/// Converts a [`Json`] into a `serde_json::Value`, kind by kind; a number by
/// the way it is written.
#[verifier::external_body]
fn value_from_json(json: &Json) -> (value: serde_json::Value) {
    match json {
        Json::Null => serde_json::Value::Null,
        Json::Bool(b) => serde_json::Value::Bool(*b),
        Json::Number(n) => serde_json::from_str(&n.text).unwrap_or_default(),
        Json::Text(s) => serde_json::Value::String(s.clone()),
        Json::Array(list) => list.iter().map(value_from_json).collect(),
        Json::Object(entries) => entries.iter().map(
            |pair| (pair.0.clone(), value_from_json(&pair.1)),
        ).collect(),
    }
}

/// Calls `serde_json::Value::to_string`. The result is a function of the
/// document alone, named [`json_written`].
#[verifier::external_body]
fn value_to_string(json: &Json) -> (text: String)
    ensures
        text@ == json_written(json@),
{
    value_from_json(json).to_string()
}

/// Writes a document as text.
pub fn write_json(json: &Json) -> (text: String)
    ensures
        text@ == json_written(json@),
{
    value_to_string(json)
}

/// The entries that a list of pairs stands for.
pub open spec fn entry_trees(entries: Seq<(String, Json)>) -> Seq<(Seq<char>, JsonView)> {
    entries.map_values(|pair: (String, Json)| (pair.0@, tree(pair.1)))
}

/// Adds an entry to the entries of an object.
pub fn push_entry(entries: &mut Vec<(String, Json)>, key: &str, value: Json)
    ensures
        entry_trees(final(entries)@) == entry_trees(old(entries)@).push((key@, value@)),
{
    let ghost before = entries@;
    entries.push((key.to_owned(), value));
    assert(entry_trees(entries@) =~= entry_trees(before).push((key@, value@)));
}

/// An object with the given entries.
pub fn object(entries: Vec<(String, Json)>) -> (r: Json)
    ensures
        r@ == JsonView::Object(entry_trees(entries@)),
{
    let r = Json::Object(entries);
    assert(r@->Object_0 =~= entry_trees(entries@));
    r
}

/// A list with one text.
pub fn one_text(text: &str) -> (r: Json)
    ensures
        r@ == JsonView::Array(seq![JsonView::Text(text@)]),
{
    let mut list: Vec<Json> = Vec::new();
    list.push(Json::Text(text.to_owned()));
    let r = Json::Array(list);
    assert(tree(list@[0]) == JsonView::Text(text@));
    assert(r@->Array_0 =~= seq![JsonView::Text(text@)]);
    r
}

} // verus!
