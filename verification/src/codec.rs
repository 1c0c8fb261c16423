//! JSON text to JSON values and back, through `serde_json`.
//!
//! `serde_json` reads and writes the text. What it holds in between is opaque here. The functions
//! that open and close one level of it are trusted, and the walk over the levels is verified.

use vstd::prelude::*;
use crate::json::{members_view, Json, JsonView};

verus! {

/// `serde_json::Value`, which holds a JSON value with all that is inside it.
#[verifier::external_type_specification]
#[verifier::external_body]
pub struct ExValue(serde_json::Value);

/// `serde_json::Number`, which holds a JSON number.
#[verifier::external_type_specification]
#[verifier::external_body]
pub struct ExNumber(serde_json::Number);

/// `serde_json::Map`, which holds the members of a JSON object.
#[verifier::external_type_specification]
#[verifier::external_body]
#[verifier::reject_recursive_types(K)]
#[verifier::reject_recursive_types(V)]
pub struct ExMembers<K, V>(serde_json::Map<K, V>);

/// The JSON value that a `serde_json::Value` holds.
pub uninterp spec fn document(value: serde_json::Value) -> JsonView;

/// The members that a `serde_json::Map` holds.
pub uninterp spec fn members(
    map: serde_json::Map<String, serde_json::Value>,
) -> Map<Seq<char>, JsonView>;

/// What `serde_json::Number::as_u64` returns.
pub uninterp spec fn number_as_u64(number: serde_json::Number) -> Option<u64>;

/// What `serde_json::from_str` makes of a text: the value, or the message of its error.
pub uninterp spec fn text_document(text: Seq<char>) -> Result<JsonView, Seq<char>>;

/// What `serde_json::from_slice` makes of bytes: the value, or the message of its error.
pub uninterp spec fn bytes_document(bytes: Seq<u8>) -> Result<JsonView, Seq<char>>;

/// The text that `serde_json` displays a value as: JSON on one line without spaces.
pub uninterp spec fn compact_text(value: JsonView) -> Seq<char>;

/// The text that `serde_json::to_string_pretty` writes: JSON with line breaks and indentation.
pub uninterp spec fn pretty_text(value: JsonView) -> Seq<char>;

/// A number: an unsigned integer by its value, any other number as it stands.
pub open spec fn number_view(number: serde_json::Number) -> JsonView {
    match number_as_u64(number) {
        Some(n) => JsonView::Unsigned(n),
        None => JsonView::Number(number),
    }
}

/// The topmost level of a `serde_json::Value`.
pub(crate) enum Level {
    Null,
    Bool(bool),
    Number(serde_json::Number),
    Text(String),
    Array(Vec<serde_json::Value>),
    Object(serde_json::Map<String, serde_json::Value>),
}

/// The JSON value that a level stands for.
pub(crate) open spec fn level_view(level: Level) -> JsonView {
    match level {
        Level::Null => JsonView::Null,
        Level::Bool(b) => JsonView::Bool(b),
        Level::Number(n) => number_view(n),
        Level::Text(text) => JsonView::Text(text@),
        Level::Array(items) => JsonView::Array(
            items@.map_values(|v: serde_json::Value| document(v)),
        ),
        Level::Object(map) => JsonView::Object(members(map)),
    }
}

/// The map that a list of members stands for: a later member hides an earlier one of its name.
pub(crate) open spec fn entries_view(
    entries: Seq<(String, serde_json::Value)>,
) -> Map<Seq<char>, JsonView>
    decreases entries.len(),
{
    if entries.len() == 0 {
        Map::empty()
    } else {
        entries_view(entries.drop_last()).insert(
            entries.last().0@,
            document(entries.last().1),
        )
    }
}

/// `Number::clone` of `serde_json`: the same number again.
pub assume_specification[ <serde_json::Number as Clone>::clone ](
    number: &serde_json::Number,
) -> (copy: serde_json::Number)
    ensures
        copy == *number,
;

/// `serde_json::Number::as_u64`: the number as a `u64`, or `None` if it is none.
#[verifier::external_body]
pub(crate) fn as_u64(number: &serde_json::Number) -> (n: Option<u64>)
    ensures
        n == number_as_u64(*number),
{
    number.as_u64()
}

/// `serde_json::Number::from`: the number with the given value, of which `as_u64` returns that
/// value.
#[verifier::external_body]
fn number(n: u64) -> (number: serde_json::Number)
    ensures
        number_as_u64(number) == Some(n),
{
    serde_json::Number::from(n)
}

/// The variants of `serde_json::Value`, told apart: the level holds what the value holds.
#[verifier::external_body]
fn top_level(value: serde_json::Value) -> (level: Level)
    ensures
        level_view(level) == document(value),
{
    match value {
        serde_json::Value::Null => Level::Null,
        serde_json::Value::Bool(b) => Level::Bool(b),
        serde_json::Value::Number(n) => Level::Number(n),
        serde_json::Value::String(text) => Level::Text(text),
        serde_json::Value::Array(items) => Level::Array(items),
        serde_json::Value::Object(map) => Level::Object(map),
    }
}

/// The variants of `serde_json::Value`, put together: the value holds what the level holds.
#[verifier::external_body]
fn from_level(level: Level) -> (value: serde_json::Value)
    ensures
        document(value) == level_view(level),
{
    match level {
        Level::Null => serde_json::Value::Null,
        Level::Bool(b) => serde_json::Value::Bool(b),
        Level::Number(n) => serde_json::Value::Number(n),
        Level::Text(text) => serde_json::Value::String(text),
        Level::Array(items) => serde_json::Value::Array(items),
        Level::Object(map) => serde_json::Value::Object(map),
    }
}

/// `serde_json::Map::new`: a map without members.
#[verifier::external_body]
fn new_map() -> (map: serde_json::Map<String, serde_json::Value>)
    ensures
        (members(map) == Map::<Seq<char>, JsonView>::empty()),
{
    serde_json::Map::new()
}

/// `serde_json::Map::insert`: the map has the given member, in place of an earlier one of that
/// name, and its other members as before.
#[verifier::external_body]
fn insert(
    map: &mut serde_json::Map<String, serde_json::Value>,
    name: String,
    value: serde_json::Value,
)
    ensures
        members(*final(map)) == members(*old(map)).insert(name@, document(value)),
{
    map.insert(name, value);
}

/// `serde_json::Map::into_iter`: each member of the map once, with its name.
#[verifier::external_body]
fn into_entries(map: serde_json::Map<String, serde_json::Value>) -> (entries: Vec<
    (String, serde_json::Value),
>)
    ensures
        entries_view(entries@) == members(map),
        forall|i: int, j: int|
            0 <= i < j < entries@.len() ==> #[trigger] entries@[i].0@ != #[trigger] entries@[j].0@,
{
    map.into_iter().collect()
}

/// `serde_json::from_str` into a `serde_json::Value`, with the error turned into its message.
#[verifier::external_body]
fn from_str(text: &str) -> (value: Result<serde_json::Value, String>)
    ensures
        match value {
            Ok(v) => text_document(text@) == Ok::<JsonView, Seq<char>>(document(v)),
            Err(message) => text_document(text@) == Err::<JsonView, Seq<char>>(message@),
        },
{
    serde_json::from_str(text).map_err(|error| error.to_string())
}

/// `serde_json::from_slice` into a `serde_json::Value`, with the error turned into its message.
#[verifier::external_body]
fn from_slice(bytes: &[u8]) -> (value: Result<serde_json::Value, String>)
    ensures
        match value {
            Ok(v) => bytes_document(bytes@) == Ok::<JsonView, Seq<char>>(document(v)),
            Err(message) => bytes_document(bytes@) == Err::<JsonView, Seq<char>>(message@),
        },
{
    serde_json::from_slice(bytes).map_err(|error| error.to_string())
}

/// `serde_json::Value::to_string`: the compact text of the value.
#[verifier::external_body]
fn to_string(value: &serde_json::Value) -> (text: String)
    ensures
        text@ == compact_text(document(*value)),
{
    value.to_string()
}

/// `serde_json::to_string_pretty` of a `serde_json::Value`: the indented text of the value. It
/// fails only on a failing `Serialize` or on a name that is not a string, and a
/// `serde_json::Value` has neither.
#[verifier::external_body]
fn to_string_pretty(value: &serde_json::Value) -> (text: Result<String, String>)
    ensures
        text is Ok,
        text->Ok_0@ == pretty_text(document(*value)),
{
    serde_json::to_string_pretty(value).map_err(|error| error.to_string())
}

/// A member of a list of members with distinct names is what the map has under its name.
proof fn lemma_entry(entries: Seq<(String, serde_json::Value)>, i: int)
    requires
        0 <= i < entries.len(),
        forall|i: int, j: int|
            0 <= i < j < entries.len() ==> #[trigger] entries[i].0@ != #[trigger] entries[j].0@,
    ensures
        entries_view(entries).dom().finite(),
        entries_view(entries).contains_key(entries[i].0@),
        entries_view(entries)[entries[i].0@] == document(entries[i].1),
    decreases entries.len(),
{
    if i < entries.len() - 1 {
        lemma_entry(entries.drop_last(), i);
        assert(entries[i].0@ != entries[entries.len() - 1].0@);
    } else if entries.len() > 1 {
        lemma_entry(entries.drop_last(), 0);
    } else {
        assert(entries_view(entries.drop_last()) == Map::<Seq<char>, JsonView>::empty());
    }
}

/// The JSON value that a `serde_json::Value` holds.
fn decode(value: serde_json::Value) -> (json: Json)
    ensures
        json@ == document(value),
    decreases document(value),
{
    match top_level(value) {
        Level::Null => Json::Null,
        Level::Bool(b) => Json::Bool(b),
        Level::Number(n) => match as_u64(&n) {
            Some(n) => Json::Unsigned(n),
            None => Json::Number(n),
        },
        Level::Text(text) => Json::Text(text),
        Level::Array(items) => {
            let ghost views = items@.map_values(|v: serde_json::Value| document(v));
            let mut decoded: Vec<Json> = Vec::new();
            for item in iter: items
                invariant
                    iter.seq().map_values(|v: serde_json::Value| document(v)) == views,
                    document(value) == JsonView::Array(views),
                    decoded@.len() == iter.index(),
                    forall|j: int|
                        0 <= j < decoded@.len() ==> (#[trigger] decoded@[j])@ == views[j],
            {
                assert(document(item) == views[iter.index() as int]);
                assert(decreases_to!(document(value) => document(value)->Array_0));
                assert(decreases_to!(views => views[iter.index() as int]));
                decoded.push(decode(item));
            }
            assert(Json::Array(decoded)@->Array_0 =~= views);
            Json::Array(decoded)
        },
        Level::Object(map) => {
            let entries = into_entries(map);
            let ghost all = entries@;
            let mut decoded: Vec<(String, Json)> = Vec::new();
            for entry in iter: entries
                invariant
                    iter.seq() == all,
                    document(value) == JsonView::Object(entries_view(all)),
                    forall|i: int, j: int|
                        0 <= i < j < all.len() ==> #[trigger] all[i].0@ != #[trigger] all[j].0@,
                    members_view(decoded@) == entries_view(all.take(iter.index() as int)),
            {
                let ghost k: int = iter.index() as int;
                let ghost before = decoded@;
                proof {
                    lemma_entry(all, k);
                    assert(decreases_to!(document(value) => document(value)->Object_0));
                    assert(decreases_to!(entries_view(all) => entries_view(all)[all[k].0@]));
                }
                let (name, member) = entry;
                decoded.push((name, decode(member)));
                proof {
                    assert(decoded@.drop_last() == before);
                    assert(all.take(k + 1).drop_last() == all.take(k));
                }
            }
            assert(all.take(all.len() as int) == all);
            Json::Object(decoded)
        },
    }
}

/// A `serde_json::Value` that holds the given JSON value.
fn encode(json: &Json) -> (value: serde_json::Value)
    ensures
        document(value) == json@,
    decreases json,
{
    match json {
        Json::Null => from_level(Level::Null),
        Json::Bool(b) => from_level(Level::Bool(*b)),
        Json::Unsigned(n) => from_level(Level::Number(number(*n))),
        Json::Number(n) => from_level(Level::Number(n.clone())),
        Json::Text(text) => from_level(Level::Text(text.clone())),
        Json::Array(items) => {
            let mut encoded: Vec<serde_json::Value> = Vec::new();
            for i in 0..items.len()
                invariant
                    *json == Json::Array(*items),
                    encoded@.len() == i,
                    forall|j: int|
                        0 <= j < i ==> document(#[trigger] encoded@[j]) == items@[j]@,
            {
                assert(decreases_to!(*json => json->Array_0));
                assert(decreases_to!(items@ => items@[i as int]));
                encoded.push(encode(&items[i]));
            }
            let level = Level::Array(encoded);
            assert(level_view(level)->Array_0 =~= json@->Array_0);
            from_level(level)
        },
        Json::Object(list) => {
            let mut map = new_map();
            for i in 0..list.len()
                invariant
                    *json == Json::Object(*list),
                    members(map) == members_view(list@.take(i as int)),
            {
                assert(decreases_to!(*json => json->Object_0));
                assert(decreases_to!(list@ => list@[i as int]));
                assert(decreases_to!(list@[i as int] => list@[i as int].1));
                insert(&mut map, list[i].0.clone(), encode(&list[i].1));
                assert(list@.take(i + 1).drop_last() == list@.take(i as int));
            }
            assert(list@.take(list@.len() as int) == list@);
            from_level(Level::Object(map))
        },
    }
}

/// The value of what a decoder returned.
pub open spec fn document_view(document: Result<Json, String>) -> Result<JsonView, Seq<char>> {
    match document {
        Ok(json) => Ok(json@),
        Err(message) => Err(message@),
    }
}

/// The JSON value that a text holds, or what is wrong with the text.
pub fn parse_text(text: &str) -> (json: Result<Json, String>)
    ensures
        document_view(json) == text_document(text@),
{
    match from_str(text) {
        Ok(value) => Ok(decode(value)),
        Err(message) => Err(message),
    }
}

/// The JSON value that bytes hold, or what is wrong with the bytes.
pub fn parse_bytes(bytes: &[u8]) -> (json: Result<Json, String>)
    ensures
        document_view(json) == bytes_document(bytes@),
{
    match from_slice(bytes) {
        Ok(value) => Ok(decode(value)),
        Err(message) => Err(message),
    }
}

/// The value as JSON on one line.
pub fn compact(json: &Json) -> (text: String)
    ensures
        text@ == compact_text(json@),
{
    to_string(&encode(json))
}

/// The value as indented JSON.
pub fn pretty(json: &Json) -> (text: String)
    ensures
        text@ == pretty_text(json@),
{
    to_string_pretty(&encode(json)).unwrap()
}

/// The list of the values as indented JSON.
pub fn pretty_list(list: &Vec<&Json>) -> (text: String)
    ensures
        text@ == pretty_text(JsonView::Array(list@.map_values(|json: &Json| json@))),
{
    let mut encoded: Vec<serde_json::Value> = Vec::new();
    for i in 0..list.len()
        invariant
            encoded@.len() == i,
            forall|j: int| 0 <= j < i ==> document(#[trigger] encoded@[j]) == list@[j]@,
    {
        encoded.push(encode(list[i]));
    }
    let level = Level::Array(encoded);
    assert(level_view(level)->Array_0 =~= list@.map_values(|json: &Json| json@));
    to_string_pretty(&from_level(level)).unwrap()
}

} // verus!
