//! JSON values as the client reads and builds them.

use vstd::prelude::*;
use vstd::string::*;
use crate::codec::{as_u64, number_view};

verus! {

/// A JSON value.
///
/// A non-negative integer below 2^64 is held as a plain integer. Every other number is carried
/// through in the form in which it was decoded. Of several members with one name the last one
/// counts.
#[derive(Debug, PartialEq)]
pub enum Json {
    Null,
    Bool(bool),
    Unsigned(u64),
    Number(serde_json::Number),
    Text(String),
    Array(Vec<Json>),
    Object(Vec<(String, Json)>),
}

/// What a JSON value is: an object is a finite map from names to values.
#[verifier::ext_equal]
pub enum JsonView {
    Null,
    Bool(bool),
    Unsigned(u64),
    Number(serde_json::Number),
    Text(Seq<char>),
    Array(Seq<JsonView>),
    Object(Map<Seq<char>, JsonView>),
}

/// The value that `json` stands for.
pub open spec fn json_view(json: Json) -> JsonView
    decreases json,
{
    match json {
        Json::Null => JsonView::Null,
        Json::Bool(b) => JsonView::Bool(b),
        Json::Unsigned(n) => JsonView::Unsigned(n),
        Json::Number(n) => number_view(n),
        Json::Text(text) => JsonView::Text(text@),
        Json::Array(items) => JsonView::Array(
            Seq::new(
                items@.len(),
                |i: int|
                    if 0 <= i < items@.len() {
                        json_view(items@[i])
                    } else {
                        JsonView::Null
                    },
            ),
        ),
        Json::Object(members) => JsonView::Object(members_view(members@)),
    }
}

/// The map that a list of members stands for: a later member hides an earlier one of its name.
pub open spec fn members_view(members: Seq<(String, Json)>) -> Map<Seq<char>, JsonView>
    decreases members,
{
    if members.len() == 0 {
        Map::empty()
    } else {
        members_view(members.drop_last()).insert(members.last().0@, json_view(members.last().1))
    }
}

impl View for Json {
    type V = JsonView;

    open spec fn view(&self) -> JsonView {
        json_view(*self)
    }
}

impl JsonView {
    /// The member of that name, if the value is an object that has one.
    pub open spec fn member(self, name: Seq<char>) -> Option<JsonView> {
        match self {
            JsonView::Object(members) => if members.contains_key(name) {
                Some(members[name])
            } else {
                None
            },
            _ => None,
        }
    }

    /// The member of that name of the member of that name.
    pub open spec fn member_of_member(self, outer: Seq<char>, inner: Seq<char>) -> Option<
        JsonView,
    > {
        match self.member(outer) {
            Some(value) => value.member(inner),
            None => None,
        }
    }
}

/// The truth value that is there, if a value is there and is one.
pub open spec fn bool_of(value: Option<JsonView>) -> Option<bool> {
    match value {
        Some(JsonView::Bool(b)) => Some(b),
        _ => None,
    }
}

/// The unsigned integer that is there, if a value is there and is one.
pub open spec fn u64_of(value: Option<JsonView>) -> Option<u64> {
    match value {
        Some(JsonView::Unsigned(n)) => Some(n),
        _ => None,
    }
}

/// The text that is there, if a value is there and is one.
pub open spec fn text_of(value: Option<JsonView>) -> Option<Seq<char>> {
    match value {
        Some(JsonView::Text(text)) => Some(text),
        _ => None,
    }
}

/// The list that is there, if a value is there and is one.
pub open spec fn array_of(value: Option<JsonView>) -> Option<Seq<JsonView>> {
    match value {
        Some(JsonView::Array(items)) => Some(items),
        _ => None,
    }
}

/// The value that is there, seen through a reference.
pub open spec fn option_view(value: Option<&Json>) -> Option<JsonView> {
    match value {
        Some(json) => Some(json@),
        None => None,
    }
}

/// The text that is there, seen through a reference.
pub open spec fn str_view(text: Option<&str>) -> Option<Seq<char>> {
    match text {
        Some(text) => Some(text@),
        None => None,
    }
}

impl Json {
    /// The member of that name, if the value is an object that has one.
    pub fn get(&self, name: &str) -> (value: Option<&Json>)
        ensures
            option_view(value) == self@.member(name@),
    {
        match self {
            Json::Object(members) => {
                let wanted: String = name.to_owned();
                let mut i: usize = members.len();
                assert(members@.take(i as int) == members@);
                while i > 0
                    invariant
                        i <= members@.len(),
                        wanted@ == name@,
                        members_view(members@).contains_key(name@) == members_view(
                            members@.take(i as int),
                        ).contains_key(name@),
                        members_view(members@).contains_key(name@) ==> members_view(
                            members@,
                        )[name@] == members_view(members@.take(i as int))[name@],
                        *self == Json::Object(*members),
                    decreases i,
                {
                    i = i - 1;
                    assert(members@.take(i + 1).drop_last() == members@.take(i as int));
                    if members[i].0 == wanted {
                        return Some(&members[i].1);
                    }
                }
                None
            },
            _ => None,
        }
    }

    /// Whether the value is an object.
    pub fn is_object(&self) -> (b: bool)
        ensures
            b == (self@ is Object),
    {
        match self {
            Json::Object(_) => true,
            _ => false,
        }
    }

    /// The truth value, if the value is one.
    pub fn as_bool(&self) -> (b: Option<bool>)
        ensures
            b == bool_of(Some(self@)),
    {
        match self {
            Json::Bool(b) => Some(*b),
            _ => None,
        }
    }

    /// The unsigned integer, if the value is one.
    pub fn as_u64(&self) -> (n: Option<u64>)
        ensures
            n == u64_of(Some(self@)),
    {
        match self {
            Json::Unsigned(n) => Some(*n),
            Json::Number(n) => as_u64(n),
            _ => None,
        }
    }

    /// The text, if the value is one.
    pub fn as_str(&self) -> (text: Option<&str>)
        ensures
            str_view(text) == text_of(Some(self@)),
    {
        match self {
            Json::Text(text) => Some(text.as_str()),
            _ => None,
        }
    }

    /// The list, if the value is one.
    pub fn as_array(&self) -> (items: Option<&Vec<Json>>)
        ensures
            items is Some == array_of(Some(self@)) is Some,
            items is Some ==> list_view(items->0@) == array_of(Some(self@))->0,
    {
        match self {
            Json::Array(items) => {
                assert(list_view(items@) =~= self@->Array_0);
                Some(items)
            },
            _ => None,
        }
    }
}

/// Gives an object a member, which hides an earlier one of its name.
pub fn set_member(members: &mut Vec<(String, Json)>, name: &str, value: Json)
    ensures
        members_view(final(members)@) == members_view(old(members)@).insert(name@, value@),
{
    let ghost before = members@;
    members.push((name.to_owned(), value));
    assert(members@.drop_last() == before);
}

/// The truth value of a member, `false` where there is none.
pub open spec fn bool_member(value: JsonView, name: Seq<char>) -> bool {
    match bool_of(value.member(name)) {
        Some(b) => b,
        None => false,
    }
}

/// The unsigned integer of a member, zero where there is none.
pub open spec fn u64_member(value: JsonView, name: Seq<char>) -> u64 {
    match u64_of(value.member(name)) {
        Some(n) => n,
        None => 0,
    }
}

/// The truth value of the member, `false` where there is none.
pub fn value_bool(value: &Json, key: &str) -> (b: bool)
    ensures
        b == bool_member(value@, key@),
{
    match value.get(key) {
        Some(member) => match member.as_bool() {
            Some(b) => b,
            None => false,
        },
        None => false,
    }
}

/// The unsigned integer of the member, zero where there is none.
pub fn value_u64(value: &Json, key: &str) -> (n: u64)
    ensures
        n == u64_member(value@, key@),
{
    match value.get(key) {
        Some(member) => match member.as_u64() {
            Some(n) => n,
            None => 0,
        },
        None => 0,
    }
}

/// The text of the member, if there is one.
pub fn value_str<'a>(value: &'a Json, key: &str) -> (text: Option<&'a str>)
    ensures
        str_view(text) == text_of(value@.member(key@)),
{
    match value.get(key) {
        Some(member) => member.as_str(),
        None => None,
    }
}

/// The text of the member of the member, if there is one.
pub fn nested_str<'a>(value: &'a Json, outer: &str, inner: &str) -> (text: Option<&'a str>)
    ensures
        str_view(text) == text_of(value@.member_of_member(outer@, inner@)),
{
    match value.get(outer) {
        Some(member) => value_str(member, inner),
        None => None,
    }
}

/// The values that a list of JSON values stands for.
pub open spec fn list_view(list: Seq<Json>) -> Seq<JsonView> {
    list.map_values(|json: Json| json@)
}

} // verus!
