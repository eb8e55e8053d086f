//! JSON values as the client reads and writes them.

use vstd::prelude::*;

use crate::text::{option_str_view, same_text};

verus! {

/// A JSON number: an integer of 64 bits, or any other number by its text.
#[derive(Debug, PartialEq, Eq)]
pub enum JsonNumber {
    Signed(i64),
    Unsigned(u64),
    Other(String),
}

pub enum JsonNumberView {
    Signed(i64),
    Unsigned(u64),
    Other(Seq<char>),
}

impl View for JsonNumber {
    type V = JsonNumberView;

    open spec fn view(&self) -> JsonNumberView {
        match self {
            JsonNumber::Signed(n) => JsonNumberView::Signed(*n),
            JsonNumber::Unsigned(n) => JsonNumberView::Unsigned(*n),
            JsonNumber::Other(t) => JsonNumberView::Other(t@),
        }
    }
}

/// A JSON value. An object keeps its members in order, each key once.
#[derive(Debug, PartialEq, Eq)]
pub enum Json {
    Null,
    Bool(bool),
    Number(JsonNumber),
    Text(String),
    Array(Vec<Json>),
    Object(Vec<(String, Json)>),
}

#[verifier::ext_equal]
pub enum JsonView {
    Null,
    Bool(bool),
    Number(JsonNumberView),
    Text(Seq<char>),
    Array(Seq<JsonView>),
    Object(Seq<(Seq<char>, JsonView)>),
}

pub open spec fn view_json(j: Json) -> JsonView
    decreases j,
{
    match j {
        Json::Null => JsonView::Null,
        Json::Bool(b) => JsonView::Bool(b),
        Json::Number(n) => JsonView::Number(n@),
        Json::Text(t) => JsonView::Text(t@),
        Json::Array(items) => JsonView::Array(
            Seq::new(
                items@.len(),
                |i: int|
                    if 0 <= i < items@.len() {
                        view_json(items@[i])
                    } else {
                        JsonView::Null
                    },
            ),
        ),
        Json::Object(members) => JsonView::Object(
            Seq::new(
                members@.len(),
                |i: int|
                    if 0 <= i < members@.len() {
                        (members@[i].0@, view_json(members@[i].1))
                    } else {
                        (Seq::empty(), JsonView::Null)
                    },
            ),
        ),
    }
}

impl View for Json {
    type V = JsonView;

    open spec fn view(&self) -> JsonView {
        view_json(*self)
    }
}

impl JsonView {
    /// The value under `key` in an object: the last member that carries it.
    pub open spec fn get(self, key: Seq<char>) -> Option<JsonView> {
        match self {
            JsonView::Object(members) => member_of(members, key),
            _ => None,
        }
    }

    pub open spec fn text(self) -> Option<Seq<char>> {
        match self {
            JsonView::Text(t) => Some(t),
            _ => None,
        }
    }

    /// The text under `key`.
    pub open spec fn text_at(self, key: Seq<char>) -> Option<Seq<char>> {
        match self.get(key) {
            Some(j) => j.text(),
            None => None,
        }
    }

    pub open spec fn boolean(self) -> Option<bool> {
        match self {
            JsonView::Bool(b) => Some(b),
            _ => None,
        }
    }

    /// The integer that fits in 64 bits with a sign.
    pub open spec fn integer(self) -> Option<i64> {
        match self {
            JsonView::Number(JsonNumberView::Signed(n)) => Some(n),
            JsonView::Number(JsonNumberView::Unsigned(n)) => if n <= i64::MAX {
                Some(n as i64)
            } else {
                None
            },
            _ => None,
        }
    }

    pub open spec fn items(self) -> Option<Seq<JsonView>> {
        match self {
            JsonView::Array(items) => Some(items),
            _ => None,
        }
    }

    pub open spec fn members(self) -> Option<Seq<(Seq<char>, JsonView)>> {
        match self {
            JsonView::Object(members) => Some(members),
            _ => None,
        }
    }

    /// The value under `key`, a null taken as absent.
    pub open spec fn present(self, key: Seq<char>) -> Option<JsonView> {
        match self.get(key) {
            Some(JsonView::Null) => None,
            other => other,
        }
    }
}

/// What `serde_json::from_str` makes of a text: a value, or the message of
/// the error.
pub uninterp spec fn parsed_json(text: Seq<char>) -> Result<JsonView, Seq<char>>;

/// A value of `serde_json`, which only the two functions below look into.
#[verifier::external_type_specification]
#[verifier::external_body]
pub struct ExValue(serde_json::Value);

/// `value` as a value of this module, variant by variant.
#[verifier::external_body]
fn json_of_value(value: serde_json::Value) -> (out: Json) {
    match value {
        serde_json::Value::Null => Json::Null,
        serde_json::Value::Bool(b) => Json::Bool(b),
        serde_json::Value::Number(n) => Json::Number(
            n.as_i64().map(JsonNumber::Signed).or(n.as_u64().map(JsonNumber::Unsigned)).unwrap_or_else(
                || JsonNumber::Other(n.to_string()),
            ),
        ),
        serde_json::Value::String(t) => Json::Text(t),
        serde_json::Value::Array(a) => Json::Array(a.into_iter().map(json_of_value).collect()),
        serde_json::Value::Object(o) => Json::Object(
            o.into_iter().map(|(k, v)| (k, json_of_value(v))).collect(),
        ),
    }
}

/// Reads JSON: `serde_json::from_str` into its own value type. The result is
/// named. Of an object that repeats a key that type keeps the last member. Whether a
/// record may repeat a field is decided by its reader, before it is read from the value.
#[verifier::external_body]
pub(crate) fn parse_json(text: &str) -> (out: Result<Json, String>)
    ensures
        match out {
            Ok(j) => parsed_json(text@) == Ok::<JsonView, Seq<char>>(j@),
            Err(e) => parsed_json(text@) == Err::<JsonView, Seq<char>>(e@),
        },
{
    serde_json::from_str::<serde_json::Value>(text).map(json_of_value).map_err(|e| e.to_string())
}

/// Reads a JSON text.
pub fn read_json(text: &str) -> (out: Result<Json, String>)
    ensures
        match out {
            Ok(j) => parsed_json(text@) == Ok::<JsonView, Seq<char>>(j@),
            Err(e) => parsed_json(text@) == Err::<JsonView, Seq<char>>(e@),
        },
{
    parse_json(text)
}

/// What `serde_json::to_string` writes of a value.
pub uninterp spec fn written_json(value: JsonView) -> Seq<char>;

/// What `serde_json::to_string_pretty` writes of a value.
pub uninterp spec fn pretty_json(value: JsonView) -> Seq<char>;

/// A value as one of `serde_json`, variant by variant.
#[verifier::external_body]
fn value_of_json(j: &Json) -> (out: serde_json::Value) {
    match j {
        Json::Null => serde_json::Value::Null,
        Json::Bool(b) => serde_json::Value::Bool(*b),
        Json::Number(JsonNumber::Signed(n)) => serde_json::Value::from(*n),
        Json::Number(JsonNumber::Unsigned(n)) => serde_json::Value::from(*n),
        Json::Number(JsonNumber::Other(t)) => serde_json::from_str(t).unwrap_or_default(),
        Json::Text(t) => serde_json::Value::from(t.as_str()),
        Json::Array(a) => serde_json::Value::Array(a.iter().map(value_of_json).collect()),
        Json::Object(o) => serde_json::Value::Object(
            o.iter().map(|(k, v)| (k.clone(), value_of_json(v))).collect(),
        ),
    }
}

/// Writes JSON in one line: `serde_json::to_string` of its own value type, which does
/// not fail on one. What it writes is named; the members of an object come in the
/// order of their keys.
#[verifier::external_body]
pub(crate) fn write_json(j: &Json) -> (out: String)
    ensures
        out@ == written_json(j@),
{
    serde_json::to_string(&value_of_json(j)).unwrap_or_default()
}

/// Writes JSON over several lines: `serde_json::to_string_pretty` of its own value
/// type, which does not fail on one. What it writes is named.
#[verifier::external_body]
pub(crate) fn write_pretty(j: &Json) -> (out: String)
    ensures
        out@ == pretty_json(j@),
{
    serde_json::to_string_pretty(&value_of_json(j)).unwrap_or_default()
}

pub open spec fn member_of(members: Seq<(Seq<char>, JsonView)>, key: Seq<char>) -> Option<JsonView>
    decreases members.len(),
{
    if members.len() == 0 {
        None
    } else if members.last().0 == key {
        Some(members.last().1)
    } else {
        member_of(members.drop_last(), key)
    }
}

impl Json {
    pub fn copy(&self) -> (out: Json)
        ensures
            out@ == self@,
        decreases self,
    {
        match self {
            Json::Null => Json::Null,
            Json::Bool(b) => Json::Bool(*b),
            Json::Number(JsonNumber::Signed(n)) => Json::Number(JsonNumber::Signed(*n)),
            Json::Number(JsonNumber::Unsigned(n)) => Json::Number(JsonNumber::Unsigned(*n)),
            Json::Number(JsonNumber::Other(t)) => Json::Number(JsonNumber::Other(t.clone())),
            Json::Text(t) => Json::Text(t.clone()),
            Json::Array(items) => {
                let mut out: Vec<Json> = Vec::new();
                let mut i: usize = 0;
                while i < items.len()
                    invariant
                        i <= items.len(),
                        out.len() == i,
                        *self == Json::Array(*items),
                        forall|k: int| 0 <= k < i ==> view_json(#[trigger] out@[k]) == view_json(items@[k]),
                    decreases items.len() - i,
                {
                    assert(decreases_to!(*self => self->Array_0));
                    assert(decreases_to!(self->Array_0 => self->Array_0@));
                    assert(decreases_to!(self->Array_0@ => self->Array_0@[i as int]));
                    let next = items[i].copy();
                    out.push(next);
                    i = i + 1;
                }
                let r = Json::Array(out);
                assert(r@->Array_0 =~= self@->Array_0);
                r
            },
            Json::Object(members) => {
                let mut out: Vec<(String, Json)> = Vec::new();
                let mut i: usize = 0;
                while i < members.len()
                    invariant
                        i <= members.len(),
                        out.len() == i,
                        *self == Json::Object(*members),
                        forall|k: int| 0 <= k < i ==> (#[trigger] out@[k]).0@ == members@[k].0@ && view_json(out@[k].1) == view_json(members@[k].1),
                    decreases members.len() - i,
                {
                    assert(decreases_to!(*self => self->Object_0));
                    assert(decreases_to!(self->Object_0 => self->Object_0@));
                    assert(decreases_to!(self->Object_0@ => self->Object_0@[i as int]));
                    assert(decreases_to!(self->Object_0@[i as int] => self->Object_0@[i as int].1));
                    let next = members[i].1.copy();
                    out.push((members[i].0.clone(), next));
                    i = i + 1;
                }
                let r = Json::Object(out);
                assert(r@->Object_0 =~= self@->Object_0);
                r
            },
        }
    }

    pub fn text(&self) -> (out: Option<&str>)
        ensures
            option_str_view(out) == self@.text(),
    {
        match self {
            Json::Text(t) => Some(t.as_str()),
            _ => None,
        }
    }

    pub fn text_at(&self, key: &str) -> (out: Option<&str>)
        ensures
            option_str_view(out) == self@.text_at(key@),
    {
        match self.get(key) {
            Some(j) => j.text(),
            None => None,
        }
    }

    pub fn boolean(&self) -> (out: Option<bool>)
        ensures
            out == self@.boolean(),
    {
        match self {
            Json::Bool(b) => Some(*b),
            _ => None,
        }
    }

    pub fn integer(&self) -> (out: Option<i64>)
        ensures
            out == self@.integer(),
    {
        match self {
            Json::Number(JsonNumber::Signed(n)) => Some(*n),
            Json::Number(JsonNumber::Unsigned(n)) => if *n <= i64::MAX as u64 {
                Some(*n as i64)
            } else {
                None
            },
            _ => None,
        }
    }

    pub fn is_null(&self) -> (r: bool)
        ensures
            r == (self@ == JsonView::Null),
    {
        match self {
            Json::Null => true,
            _ => false,
        }
    }

    /// The value under `key`, a null taken as absent.
    pub fn present(&self, key: &str) -> (out: Option<&Json>)
        ensures
            match out {
                Some(j) => self@.present(key@) == Some(j@),
                None => self@.present(key@) is None,
            },
    {
        match self.get(key) {
            Some(Json::Null) => None,
            other => other,
        }
    }

    pub fn get(&self, key: &str) -> (out: Option<&Json>)
        ensures
            match out {
                Some(j) => self@.get(key@) == Some(j@),
                None => self@.get(key@) is None,
            },
    {
        match self {
            Json::Object(members) => {
                let mut i: usize = members.len();
                let ghost all = self@->Object_0;
                assert(all.take(i as int) =~= all);
                while i > 0
                    invariant
                        i <= members.len(),
                        *self == Json::Object(*members),
                        all == self@->Object_0,
                        all.len() == members.len(),
                        member_of(all, key@) == member_of(all.take(i as int), key@),
                    decreases i,
                {
                    i = i - 1;
                    assert(all.take(i + 1).last() == all[i as int]);
                    assert(all.take(i + 1).drop_last() =~= all.take(i as int));
                    if same_text(members[i].0.as_str(), key) {
                        return Some(&members[i].1);
                    }
                }
                None
            },
            _ => None,
        }
    }
}

} // verus!
