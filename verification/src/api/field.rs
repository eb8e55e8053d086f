//! Reading the fields of a JSON object. A field that does not fit is told by its name.

use vstd::prelude::*;

use crate::ids::{parse_id, parsed_id};
use crate::json::{Json, JsonNumber, JsonNumberView, JsonView};
use crate::text::{option_view, views};

verus! {

/// A decoded value, or the name of the field that does not fit, by their views.
pub open spec fn decoded<T: View>(r: Result<T, String>) -> Result<T::V, Seq<char>> {
    match r {
        Ok(v) => Ok(v@),
        Err(e) => Err(e@),
    }
}

/// A decoded text that may be absent, or the name of the field that does not fit.
pub open spec fn decoded_option(r: Result<Option<String>, String>) -> Result<
    Option<Seq<char>>,
    Seq<char>,
> {
    match r {
        Ok(v) => Ok(option_view(v)),
        Err(e) => Err(e@),
    }
}

/// A text that must be there.
pub open spec fn text_field(j: JsonView, key: Seq<char>) -> Result<Seq<char>, Seq<char>> {
    match j.text_at(key) {
        Some(t) => Ok(t),
        None => Err(key),
    }
}

pub fn read_text(j: &Json, key: &str) -> (out: Result<String, String>)
    ensures
        decoded(out) == text_field(j@, key@),
{
    match j.text_at(key) {
        Some(t) => Ok(t.to_owned()),
        None => Err(key.to_owned()),
    }
}

/// A text that may be absent or null.
pub open spec fn maybe_text_field(j: JsonView, key: Seq<char>) -> Result<
    Option<Seq<char>>,
    Seq<char>,
> {
    match j.present(key) {
        None => Ok(None),
        Some(JsonView::Text(t)) => Ok(Some(t)),
        Some(_) => Err(key),
    }
}

pub fn read_maybe_text(j: &Json, key: &str) -> (out: Result<Option<String>, String>)
    ensures
        decoded_option(out) == maybe_text_field(j@, key@),
{
    match j.present(key) {
        None => Ok(None),
        Some(Json::Text(t)) => Ok(Some(t.clone())),
        Some(_) => Err(key.to_owned()),
    }
}

/// A text that is empty where it is absent.
pub open spec fn text_or_empty_field(j: JsonView, key: Seq<char>) -> Result<Seq<char>, Seq<char>> {
    match j.get(key) {
        None => Ok(Seq::empty()),
        Some(JsonView::Text(t)) => Ok(t),
        Some(_) => Err(key),
    }
}

pub fn read_text_or_empty(j: &Json, key: &str) -> (out: Result<String, String>)
    ensures
        decoded(out) == text_or_empty_field(j@, key@),
{
    match j.get(key) {
        None => Ok(String::new()),
        Some(Json::Text(t)) => Ok(t.clone()),
        Some(_) => Err(key.to_owned()),
    }
}

/// An id that must be there.
pub open spec fn id_field(j: JsonView, key: Seq<char>) -> Result<u128, Seq<char>> {
    match j.text_at(key) {
        Some(t) => match parsed_id(t) {
            Some(id) => Ok(id),
            None => Err(key),
        },
        None => Err(key),
    }
}

pub fn read_id(j: &Json, key: &str) -> (out: Result<u128, String>)
    ensures
        decoded(out) == id_field(j@, key@),
{
    match j.text_at(key) {
        Some(t) => match parse_id(t) {
            Some(id) => Ok(id),
            None => Err(key.to_owned()),
        },
        None => Err(key.to_owned()),
    }
}

/// A truth value that must be there.
pub open spec fn bool_field(j: JsonView, key: Seq<char>) -> Result<bool, Seq<char>> {
    match j.get(key) {
        Some(JsonView::Bool(b)) => Ok(b),
        _ => Err(key),
    }
}

pub fn read_bool(j: &Json, key: &str) -> (out: Result<bool, String>)
    ensures
        decoded(out) == bool_field(j@, key@),
{
    match j.get(key) {
        Some(Json::Bool(b)) => Ok(*b),
        _ => Err(key.to_owned()),
    }
}

/// A truth value that is false where it is absent.
pub open spec fn bool_or_false_field(j: JsonView, key: Seq<char>) -> Result<bool, Seq<char>> {
    match j.get(key) {
        None => Ok(false),
        Some(JsonView::Bool(b)) => Ok(b),
        Some(_) => Err(key),
    }
}

pub fn read_bool_or_false(j: &Json, key: &str) -> (out: Result<bool, String>)
    ensures
        decoded(out) == bool_or_false_field(j@, key@),
{
    match j.get(key) {
        None => Ok(false),
        Some(Json::Bool(b)) => Ok(*b),
        Some(_) => Err(key.to_owned()),
    }
}

/// A truth value that may be absent or null.
pub open spec fn maybe_bool_field(j: JsonView, key: Seq<char>) -> Result<Option<bool>, Seq<char>> {
    match j.present(key) {
        None => Ok(None),
        Some(JsonView::Bool(b)) => Ok(Some(b)),
        Some(_) => Err(key),
    }
}

pub fn read_maybe_bool(j: &Json, key: &str) -> (out: Result<Option<bool>, String>)
    ensures
        decoded(out) == maybe_bool_field(j@, key@),
{
    match j.present(key) {
        None => Ok(None),
        Some(Json::Bool(b)) => Ok(Some(*b)),
        Some(_) => Err(key.to_owned()),
    }
}

/// An integer that must be there.
pub open spec fn int_field(j: JsonView, key: Seq<char>) -> Result<i64, Seq<char>> {
    match j.get(key) {
        Some(v) => match v.integer() {
            Some(n) => Ok(n),
            None => Err(key),
        },
        None => Err(key),
    }
}

pub fn read_int(j: &Json, key: &str) -> (out: Result<i64, String>)
    ensures
        decoded(out) == int_field(j@, key@),
{
    match j.get(key) {
        Some(v) => match v.integer() {
            Some(n) => Ok(n),
            None => Err(key.to_owned()),
        },
        None => Err(key.to_owned()),
    }
}

/// A count that must be there.
pub open spec fn count_field(j: JsonView, key: Seq<char>) -> Result<usize, Seq<char>> {
    match j.get(key) {
        Some(JsonView::Number(JsonNumberView::Signed(n))) => if 0 <= n <= usize::MAX {
            Ok(n as usize)
        } else {
            Err(key)
        },
        Some(JsonView::Number(JsonNumberView::Unsigned(n))) => if n <= usize::MAX {
            Ok(n as usize)
        } else {
            Err(key)
        },
        _ => Err(key),
    }
}

pub fn read_count(j: &Json, key: &str) -> (out: Result<usize, String>)
    ensures
        decoded(out) == count_field(j@, key@),
{
    match j.get(key) {
        Some(Json::Number(JsonNumber::Signed(n))) => if *n >= 0 && *n as u64 <= usize::MAX as u64 {
            Ok(*n as usize)
        } else {
            Err(key.to_owned())
        },
        Some(Json::Number(JsonNumber::Unsigned(n))) => if *n <= usize::MAX as u64 {
            Ok(*n as usize)
        } else {
            Err(key.to_owned())
        },
        _ => Err(key.to_owned()),
    }
}

/// A number of any kind that must be there.
pub open spec fn number_field(j: JsonView, key: Seq<char>) -> Result<JsonNumberView, Seq<char>> {
    match j.get(key) {
        Some(JsonView::Number(n)) => Ok(n),
        _ => Err(key),
    }
}

pub fn read_number(j: &Json, key: &str) -> (out: Result<JsonNumber, String>)
    ensures
        decoded(out) == number_field(j@, key@),
{
    match j.get(key) {
        Some(Json::Number(JsonNumber::Signed(n))) => Ok(JsonNumber::Signed(*n)),
        Some(Json::Number(JsonNumber::Unsigned(n))) => Ok(JsonNumber::Unsigned(*n)),
        Some(Json::Number(JsonNumber::Other(t))) => Ok(JsonNumber::Other(t.clone())),
        _ => Err(key.to_owned()),
    }
}

/// Any value but null, where it is there.
pub fn read_maybe_json(j: &Json, key: &str) -> (out: Option<Json>)
    ensures
        match out {
            Some(v) => j@.present(key@) == Some(v@),
            None => j@.present(key@) is None,
        },
{
    match j.present(key) {
        Some(v) => Some(v.copy()),
        None => None,
    }
}

/// The texts of a list, or nothing where one item is no text.
pub open spec fn texts_of(items: Seq<JsonView>) -> Option<Seq<Seq<char>>>
    decreases items.len(),
{
    if items.len() == 0 {
        Some(Seq::empty())
    } else {
        match (texts_of(items.drop_last()), items.last().text()) {
            (Some(done), Some(t)) => Some(done.push(t)),
            _ => None,
        }
    }
}

/// A list whose prefix holds something else than texts does so as a whole.
proof fn lemma_texts_prefix(items: Seq<JsonView>, n: int)
    requires
        0 <= n <= items.len(),
        texts_of(items.take(n)) is None,
    ensures
        texts_of(items) is None,
    decreases items.len() - n,
{
    if n < items.len() {
        assert(items.take(n + 1).drop_last() =~= items.take(n));
        lemma_texts_prefix(items, n + 1);
    } else {
        assert(items.take(n) =~= items);
    }
}

pub fn read_texts(items: &Vec<Json>) -> (out: Option<Vec<String>>)
    ensures
        match out {
            Some(v) => texts_of(views(items@)) == Some(views(v@)),
            None => texts_of(views(items@)) is None,
        },
{
    let mut out: Vec<String> = Vec::new();
    let mut i: usize = 0;
    let ghost all = views(items@);
    assert(views(out@) =~= Seq::<Seq<char>>::empty());
    while i < items.len()
        invariant
            i <= items.len(),
            all == views(items@),
            texts_of(all.take(i as int)) == Some(views(out@)),
        decreases items.len() - i,
    {
        let ghost before = views(out@);
        assert(all.take(i + 1).drop_last() =~= all.take(i as int));
        assert(all.take(i + 1).last() == items@[i as int]@);
        match items[i].text() {
            Some(t) => {
                out.push(t.to_owned());
                assert(views(out@) =~= before.push(t@));
            },
            None => {
                proof {
                    lemma_texts_prefix(all, i + 1);
                }
                return None;
            },
        }
        i = i + 1;
    }
    assert(all.take(i as int) =~= all);
    Some(out)
}

/// A list of texts that is empty where it is absent.
pub open spec fn texts_or_empty_field(j: JsonView, key: Seq<char>) -> Result<
    Seq<Seq<char>>,
    Seq<char>,
> {
    match j.get(key) {
        None => Ok(Seq::empty()),
        Some(JsonView::Array(items)) => match texts_of(items) {
            Some(texts) => Ok(texts),
            None => Err(key),
        },
        Some(_) => Err(key),
    }
}

pub fn read_texts_or_empty(j: &Json, key: &str) -> (out: Result<Vec<String>, String>)
    ensures
        match out {
            Ok(v) => texts_or_empty_field(j@, key@) == Ok::<Seq<Seq<char>>, Seq<char>>(views(v@)),
            Err(e) => texts_or_empty_field(j@, key@) == Err::<Seq<Seq<char>>, Seq<char>>(e@),
        },
{
    match j.get(key) {
        None => {
            let none: Vec<String> = Vec::new();
            assert(views(none@) =~= Seq::<Seq<char>>::empty());
            Ok(none)
        },
        Some(Json::Array(items)) => {
            assert(Json::Array(*items)@->Array_0 =~= views(items@));
            match read_texts(items) {
                Some(v) => Ok(v),
                None => Err(key.to_owned()),
            }
        },
        Some(_) => Err(key.to_owned()),
    }
}

} // verus!
