//! JSON documents as the library reads them: a value model, its
//! mathematical view, and parsing through `serde_json`.

use vstd::prelude::*;
use crate::text::str_eq;

verus! {

/// A parsed JSON value. Object members keep the order the parser gives.
#[derive(Debug)]
pub enum JsonValue {
    Null,
    Bool(bool),
    /// A number, with its value when it is an integer that fits `i64`.
    Number(Option<i64>),
    Text(String),
    Array(Vec<JsonValue>),
    Object(Vec<(String, JsonValue)>),
}

/// What a JSON value is, mathematically.
pub enum JsonView {
    Null,
    Bool(bool),
    Number(Option<i64>),
    Text(Seq<char>),
    Array(Seq<JsonView>),
    Object(Seq<(Seq<char>, JsonView)>),
}

pub open spec fn json_view(v: JsonValue) -> JsonView
    decreases v, 0nat,
{
    match v {
        JsonValue::Null => JsonView::Null,
        JsonValue::Bool(b) => JsonView::Bool(b),
        JsonValue::Number(n) => JsonView::Number(n),
        JsonValue::Text(s) => JsonView::Text(s@),
        JsonValue::Array(items) => JsonView::Array(json_views(items@)),
        JsonValue::Object(fields) => JsonView::Object(json_fields(fields@)),
    }
}

pub open spec fn json_views(s: Seq<JsonValue>) -> Seq<JsonView>
    decreases s, s.len(),
{
    if s.len() == 0 {
        Seq::empty()
    } else {
        json_views(s.drop_last()).push(json_view(s.last()))
    }
}

pub open spec fn json_fields(s: Seq<(String, JsonValue)>) -> Seq<(Seq<char>, JsonView)>
    decreases s, s.len(),
{
    if s.len() == 0 {
        Seq::empty()
    } else {
        json_fields(s.drop_last()).push((s.last().0@, json_view(s.last().1)))
    }
}

pub proof fn lemma_json_views_index(s: Seq<JsonValue>)
    ensures
        json_views(s).len() == s.len(),
        forall|k: int| 0 <= k < s.len() ==> #[trigger] json_views(s)[k] == json_view(s[k]),
    decreases s.len(),
{
    if s.len() > 0 {
        lemma_json_views_index(s.drop_last());
        assert forall|k: int| 0 <= k < s.len() implies #[trigger] json_views(s)[k] == json_view(s[k]) by {
            if k < s.len() - 1 {
                assert(s.drop_last()[k] == s[k]);
            }
        }
    }
}

pub proof fn lemma_json_fields_index(s: Seq<(String, JsonValue)>)
    ensures
        json_fields(s).len() == s.len(),
        forall|k: int|
            0 <= k < s.len() ==> #[trigger] json_fields(s)[k] == (s[k].0@, json_view(s[k].1)),
    decreases s.len(),
{
    if s.len() > 0 {
        lemma_json_fields_index(s.drop_last());
        assert forall|k: int| 0 <= k < s.len() implies #[trigger] json_fields(s)[k] == (
            s[k].0@,
            json_view(s[k].1),
        ) by {
            if k < s.len() - 1 {
                assert(s.drop_last()[k] == s[k]);
            }
        }
    }
}

/// The value of the first member named `key`.
pub open spec fn json_member(fields: Seq<(Seq<char>, JsonView)>, key: Seq<char>) -> Option<JsonView>
    decreases fields.len(),
{
    if fields.len() == 0 {
        None
    } else if fields[0].0 == key {
        Some(fields[0].1)
    } else {
        json_member(fields.drop_first(), key)
    }
}

/// The member `key` of an object; `None` for anything else.
pub open spec fn json_get(v: JsonView, key: Seq<char>) -> Option<JsonView> {
    match v {
        JsonView::Object(fields) => json_member(fields, key),
        _ => None,
    }
}

/// The value of the first member named `key`.
pub fn member<'a>(fields: &'a Vec<(String, JsonValue)>, key: &str) -> (r: Option<&'a JsonValue>)
    ensures
        match r {
            Some(v) => json_member(json_fields(fields@), key@) == Some(json_view(*v)),
            None => json_member(json_fields(fields@), key@) is None,
        },
{
    proof {
        lemma_json_fields_index(fields@);
    }
    let ghost fs = json_fields(fields@);
    proof {
        assert(fs.subrange(0, fs.len() as int) =~= fs);
    }
    let mut i: usize = 0;
    while i < fields.len()
        invariant
            i <= fields@.len(),
            fs == json_fields(fields@),
            fs.len() == fields@.len(),
            forall|k: int| 0 <= k < fields@.len() ==> #[trigger] fs[k] == (fields@[k].0@, json_view(fields@[k].1)),
            json_member(fs, key@) == json_member(fs.subrange(i as int, fs.len() as int), key@),
        decreases fields.len() - i,
    {
        proof {
            let sub = fs.subrange(i as int, fs.len() as int);
            assert(sub[0] == fs[i as int]);
            assert(sub.drop_first() =~= fs.subrange(i + 1, fs.len() as int));
        }
        if str_eq(fields[i].0.as_str(), key) {
            return Some(&fields[i].1);
        }
        i += 1;
    }
    assert(fs.subrange(i as int, fs.len() as int) =~= Seq::<(Seq<char>, JsonView)>::empty());
    None
}

/// The JSON value that `serde_json` reads from a text, or `None` when the
/// text is not JSON.
pub uninterp spec fn json_parse(text: Seq<char>) -> Option<JsonView>;

#[verifier::external_type_specification]
#[verifier::external_body]
pub struct ExJsonDocument(serde_json::Value);

/// Calls `serde_json::from_str::<serde_json::Value>` and converts the value.
/// Claimed: the result is a function of the text alone, named
/// `json_parse`; a parse error gives `None`.
#[verifier::external_body]
pub(crate) fn parse_json(text: &str) -> (r: Option<JsonValue>)
    ensures
        match r {
            Some(v) => json_parse(text@) == Some(json_view(v)),
            None => json_parse(text@) is None,
        },
{
    match serde_json::from_str::<serde_json::Value>(text) {
        Ok(v) => Some(json_value_of(&v)),
        Err(_) => None,
    }
}

/// Converts a `serde_json::Value` variant by variant; an integer number that
/// fits `i64` keeps its value (`Number::as_i64`).
#[verifier::external_body]
fn json_value_of(v: &serde_json::Value) -> JsonValue {
    match v {
        serde_json::Value::Null => JsonValue::Null,
        serde_json::Value::Bool(b) => JsonValue::Bool(*b),
        serde_json::Value::Number(n) => JsonValue::Number(n.as_i64()),
        serde_json::Value::String(s) => JsonValue::Text(s.clone()),
        serde_json::Value::Array(a) => JsonValue::Array(a.iter().map(json_value_of).collect()),
        serde_json::Value::Object(m) => JsonValue::Object(
            m.iter().map(|(k, x)| (k.clone(), json_value_of(x))).collect(),
        ),
    }
}

} // verus!
