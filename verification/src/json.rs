//! JSON values as the bot reads them out of Discord's messages, and the
//! lookups it makes in them.

use vstd::prelude::*;
use crate::text::chars_of;

verus! {

/// A JSON value. An object keeps its members in the order they were read;
/// numbers keep the text they were written with.
#[derive(Debug)]
pub enum Json {
    Null,
    Bool(bool),
    Number(String),
    String(String),
    Array(Vec<Json>),
    Object(Vec<(String, Json)>),
}

/// The value of the first member of `entries` named `key`.
pub open spec fn entry_value(entries: Seq<(String, Json)>, key: Seq<char>) -> Option<Json>
    decreases entries.len(),
{
    if entries.len() == 0 {
        None
    } else if entries[0].0@ == key {
        Some(entries[0].1)
    } else {
        entry_value(entries.drop_first(), key)
    }
}

/// The member `key` of `v`, where `v` is an object that has one.
pub open spec fn lookup(v: Json, key: Seq<char>) -> Option<Json> {
    match v {
        Json::Object(entries) => entry_value(entries@, key),
        _ => None,
    }
}

/// `v[key]`: the first member named `key`, or `null` where `v` is no object
/// or has no such member. An object read from text by `parse_json` names each
/// member once (`serde_json` keeps the last of duplicate names), so there this
/// is how `serde_json` indexes the value it read.
pub open spec fn field(v: Json, key: Seq<char>) -> Json {
    match lookup(v, key) {
        Some(m) => m,
        None => Json::Null,
    }
}

/// The text of `v` where it is a JSON string.
pub open spec fn text_of(v: Json) -> Option<Seq<char>> {
    match v {
        Json::String(s) => Some(s@),
        _ => None,
    }
}

/// The text of `v` where it is a JSON string, else `default`.
pub open spec fn text_or(v: Json, default: Seq<char>) -> Seq<char> {
    match v {
        Json::String(s) => s@,
        _ => default,
    }
}

/// Declares `serde_json::Value`, the value that `serde_json` reads out of a
/// text, which the library turns into a `Json` at once.
#[verifier::external_type_specification]
#[verifier::external_body]
pub struct ExValue(serde_json::Value);

/// The JSON value that `serde_json` reads out of `text`, or `None` where
/// `text` is no JSON.
pub uninterp spec fn json_of_text(text: Seq<char>) -> Option<Json>;

/// The library's JSON value for a value that `serde_json` read, variant for
/// variant: a number keeps the text that `serde_json` writes for it, and an
/// object keeps its members in `serde_json`'s order.
#[verifier::external_body]
fn json_from_value(v: serde_json::Value) -> Json {
    match v {
        serde_json::Value::Null => Json::Null,
        serde_json::Value::Bool(b) => Json::Bool(b),
        serde_json::Value::Number(n) => Json::Number(n.to_string()),
        serde_json::Value::String(s) => Json::String(s),
        serde_json::Value::Array(a) => Json::Array(a.into_iter().map(json_from_value).collect()),
        serde_json::Value::Object(m) => Json::Object(
            m.into_iter().map(|(k, v)| (k, json_from_value(v))).collect(),
        ),
    }
}

/// Reads `text` as JSON with `serde_json::from_str`. The contract claims
/// only that the result is `json_of_text(text)`: it depends on the text
/// alone, and is `None` exactly where `serde_json` refuses the text. What
/// value `serde_json` reads out of a given text is left unsaid.
#[verifier::external_body]
pub(crate) fn parse_json(text: &str) -> (res: Option<Json>)
    ensures
        res == json_of_text(text@),
{
    match serde_json::from_str::<serde_json::Value>(text) {
        Ok(v) => Some(json_from_value(v)),
        Err(_) => None,
    }
}

/// Whether two strings hold the same characters.
pub fn same_text(a: &str, b: &str) -> (res: bool)
    ensures
        res == (a@ == b@),
{
    let ac = chars_of(a);
    let bc = chars_of(b);
    if ac.len() != bc.len() {
        return false;
    }
    let mut i: usize = 0;
    while i < ac.len()
        invariant
            i <= ac.len(),
            ac.len() == bc.len(),
            ac@ == a@,
            bc@ == b@,
            forall|j: int| 0 <= j < i ==> ac@[j] == bc@[j],
        decreases ac.len() - i,
    {
        if ac[i] != bc[i] {
            assert(ac@[i as int] != bc@[i as int]);
            return false;
        }
        i += 1;
    }
    assert(ac@ =~= bc@);
    true
}

impl Json {
    /// The member `key` of this value, where it is an object that has one.
    pub fn get(&self, key: &str) -> (res: Option<&Json>)
        ensures
            res is None <==> lookup(*self, key@) is None,
            res matches Some(m) ==> lookup(*self, key@) == Some(*m),
    {
        match self {
            Json::Object(entries) => {
                let mut i: usize = 0;
                assert(entries@.skip(0) =~= entries@);
                while i < entries.len()
                    invariant
                        i <= entries.len(),
                        lookup(*self, key@) == entry_value(entries@, key@),
                        entry_value(entries@, key@) == entry_value(entries@.skip(i as int), key@),
                    decreases entries.len() - i,
                {
                    let ghost rest = entries@.skip(i as int);
                    assert(rest.drop_first() =~= entries@.skip(i + 1));
                    assert(rest[0] == entries@[i as int]);
                    if same_text(entries[i].0.as_str(), key) {
                        return Some(&entries[i].1);
                    }
                    i += 1;
                }
                None
            },
            _ => None,
        }
    }

    /// The text of this value where it is a JSON string.
    pub fn as_text(&self) -> (res: Option<&String>)
        ensures
            res is None <==> text_of(*self) is None,
            res matches Some(s) ==> text_of(*self) == Some(s@),
    {
        match self {
            Json::String(s) => Some(s),
            _ => None,
        }
    }

    /// Whether this value is the JSON string `text`, as `serde_json`
    /// compares a value with a `&str`.
    pub fn is_text(&self, text: &str) -> (res: bool)
        ensures
            res == (text_of(*self) == Some(text@)),
    {
        match self {
            Json::String(s) => same_text(s.as_str(), text),
            _ => false,
        }
    }
}

/// The member `key` of `v`, as `field` reads it.
pub fn member<'a>(v: &'a Json, key: &str) -> (res: Option<&'a Json>)
    ensures
        res is None ==> field(*v, key@) == Json::Null,
        res matches Some(m) ==> field(*v, key@) == *m,
        res is None <==> lookup(*v, key@) is None,
{
    v.get(key)
}

/// The text of `v` where it is a JSON string, else `default`; for an absent
/// value, `default`.
pub fn text_or_default(v: Option<&Json>, default: &str) -> (res: String)
    ensures
        res@ == match v {
            Some(j) => text_or(*j, default@),
            None => default@,
        },
{
    match v {
        Some(Json::String(s)) => s.clone(),
        _ => default.to_owned(),
    }
}

} // verus!
