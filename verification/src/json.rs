//! A JSON value as the client reads it from the daemon's replies, and its
//! compact text form.

use vstd::prelude::*;

use crate::text::same_chars;

verus! {

/// A JSON value; an object holds its members in order.
#[derive(Debug)]
pub enum Json {
    Null,
    Bool(bool),
    Number(serde_json::Number),
    Str(String),
    Array(Vec<Json>),
    Object(Vec<(String, Json)>),
}

/// The value of the first member named `key`.
pub open spec fn lookup(members: Seq<(String, Json)>, key: Seq<char>) -> Option<Json>
    decreases members.len(),
{
    if members.len() == 0 {
        None
    } else if members[0].0@ == key {
        Some(members[0].1)
    } else {
        lookup(members.drop_first(), key)
    }
}

/// The member `key` of an object; nothing for any other value.
pub open spec fn json_get(v: Json, key: Seq<char>) -> Option<Json> {
    match v {
        Json::Object(members) => lookup(members@, key),
        _ => None,
    }
}

/// The text of a JSON string; nothing for any other value.
pub open spec fn json_str(v: Option<Json>) -> Option<Seq<char>> {
    match v {
        Some(Json::Str(s)) => Some(s@),
        _ => None,
    }
}

/// The member `key` of `v`, where it is a string.
pub open spec fn str_member(v: Json, key: Seq<char>) -> Option<Seq<char>> {
    json_str(json_get(v, key))
}

impl Json {
    /// The member `key` of an object (as `serde_json::Value::get`).
    pub fn get(&self, key: &str) -> (r: Option<&Json>)
        ensures
            match r {
                Some(x) => json_get(*self, key@) == Some(*x),
                None => json_get(*self, key@) is None,
            },
    {
        match self {
            Json::Object(members) => {
                let n = members.len();
                let mut i: usize = 0;
                assert(members@.skip(0) =~= members@);
                while i < n
                    invariant
                        i <= n,
                        n == members@.len(),
                        *self == Json::Object(*members),
                        lookup(members@, key@) == lookup(members@.skip(i as int), key@),
                    decreases n - i,
                {
                    assert(members@.skip(i as int)[0] == members@[i as int]);
                    assert(members@.skip(i as int).drop_first() =~= members@.skip(i + 1));
                    if same_chars(members[i].0.as_str(), key) {
                        return Some(&members[i].1);
                    }
                    i = i + 1;
                }
                None
            },
            _ => None,
        }
    }

    /// The text of a string value (as `serde_json::Value::as_str`).
    pub fn as_str(&self) -> (r: Option<&String>)
        ensures
            match r {
                Some(s) => *self == Json::Str(*s),
                None => !(self is Str),
            },
    {
        match self {
            Json::Str(s) => Some(s),
            _ => None,
        }
    }

    /// The value of a boolean (as `serde_json::Value::as_bool`).
    pub fn as_bool(&self) -> (r: Option<bool>)
        ensures
            match r {
                Some(b) => *self == Json::Bool(b),
                None => !(self is Bool),
            },
    {
        match self {
            Json::Bool(b) => Some(*b),
            _ => None,
        }
    }
}

/// The member `key` of `v`, where it is a string.
pub fn get_str(v: &Json, key: &str) -> (r: Option<String>)
    ensures
        match r {
            Some(s) => str_member(*v, key@) == Some(s@),
            None => str_member(*v, key@) is None,
        },
{
    match v.get(key) {
        Some(x) => match x.as_str() {
            Some(s) => Some(s.clone()),
            None => None,
        },
        None => None,
    }
}

/// The result of `serde_json::from_str::<serde_json::Value>` on `text`, as
/// a value of the model, or the text of the parse error.
pub uninterp spec fn parsed_json(text: Seq<char>) -> Result<Json, Seq<char>>;

/// The compact JSON text of a value, as `serde_json::Value`'s `Display`
/// writes it.
pub uninterp spec fn compact_json(v: Json) -> Seq<char>;

/// The pretty-printed JSON text of a value, as `serde_json`'s pretty
/// printer writes it.
pub uninterp spec fn pretty_json(v: Json) -> Seq<char>;

/// A JSON number.
#[verifier::external_type_specification]
#[verifier::external_body]
pub struct ExJsonNumber(serde_json::Number);

/// A parsed JSON value of `serde_json`.
#[verifier::external_type_specification]
#[verifier::external_body]
pub struct ExJsonValue(serde_json::Value);

/// Converts a `serde_json::Value` into the model, member for member and
/// element for element; nothing is claimed of it beyond what `parse_json`
/// states.
#[verifier::external_body]
fn value_to_json(v: &serde_json::Value) -> Json {
    match v {
        serde_json::Value::Null => Json::Null,
        serde_json::Value::Bool(b) => Json::Bool(*b),
        serde_json::Value::Number(n) => Json::Number(n.clone()),
        serde_json::Value::String(s) => Json::Str(s.clone()),
        serde_json::Value::Array(items) => Json::Array(items.iter().map(value_to_json).collect()),
        serde_json::Value::Object(m) => Json::Object(
            m.iter().map(|(k, x)| (k.clone(), value_to_json(x))).collect(),
        ),
    }
}

/// Converts a value of the model into a `serde_json::Value`, member for
/// member and element for element; nothing is claimed of it beyond what
/// `compact_text` and `pretty_text` state.
#[verifier::external_body]
fn json_to_value(v: &Json) -> serde_json::Value {
    match v {
        Json::Null => serde_json::Value::Null,
        Json::Bool(b) => serde_json::Value::Bool(*b),
        Json::Number(n) => serde_json::Value::Number(n.clone()),
        Json::Str(s) => serde_json::Value::String(s.clone()),
        Json::Array(items) => serde_json::Value::Array(items.iter().map(json_to_value).collect()),
        Json::Object(m) => serde_json::Value::Object(
            m.iter().map(|(k, x)| (k.clone(), json_to_value(x))).collect(),
        ),
    }
}

/// Calls `serde_json::from_str::<serde_json::Value>` on `text`; the contract
/// claims that the value (converted into the model) or the text of the
/// parse error depends on `text` alone.
#[verifier::external_body]
pub fn parse_json(text: &str) -> (r: Result<Json, String>)
    ensures
        match r {
            Ok(v) => parsed_json(text@) == Ok::<Json, Seq<char>>(v),
            Err(e) => parsed_json(text@) == Err::<Json, Seq<char>>(e@),
        },
{
    match serde_json::from_str::<serde_json::Value>(text) {
        Ok(v) => Ok(value_to_json(&v)),
        Err(e) => Err(e.to_string()),
    }
}

/// Calls `Display` of `serde_json::Value` on `v`; the contract claims that
/// the text depends on `v` alone.
#[verifier::external_body]
pub fn compact_text(v: &Json) -> (r: String)
    ensures
        r@ == compact_json(*v),
{
    format!("{}", json_to_value(v))
}

/// Calls the alternate (pretty) `Display` of `serde_json::Value` on `v`,
/// which is what `serde_json::to_string_pretty` writes; the contract claims
/// that the text depends on `v` alone.
#[verifier::external_body]
pub fn pretty_text(v: &Json) -> (r: String)
    ensures
        r@ == pretty_json(*v),
{
    format!("{:#}", json_to_value(v))
}

/// The document `{"error": msg}` that reports a failure.
pub fn error_document(msg: &str) -> (r: Json)
    ensures
        r matches Json::Object(members) && members@.len() == 1 && members@[0].0@ == "error"@
            && (members@[0].1 matches Json::Str(text) && text@ == msg@),
{
    let mut members: Vec<(String, Json)> = Vec::new();
    members.push((String::from_str("error"), Json::Str(String::from_str(msg))));
    Json::Object(members)
}

} // verus!
