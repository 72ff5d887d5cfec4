//! A JSON document as plain values, read by the library's parsers.

use vstd::prelude::*;
use crate::text::str_eq;

verus! {

/// A JSON value. Numbers keep their text; objects keep their members in order.
#[derive(Debug)]
pub enum JsonValue {
    Null,
    Bool(bool),
    Number(String),
    String(String),
    Array(Vec<JsonValue>),
    Object(Vec<(String, JsonValue)>),
}

/// The outcome of reading a text as JSON with `serde_json::from_str`: the
/// document, or the parser's error message.
pub uninterp spec fn spec_parse_json(text: Seq<char>) -> core::result::Result<JsonValue, Seq<char>>;

#[verifier::external_type_specification]
#[verifier::external_body]
pub struct ExSerdeJsonValue(serde_json::Value);

/// Conversion of a `serde_json::Value` into the library's value, member for member.
#[verifier::external_body]
fn from_serde(v: &serde_json::Value) -> JsonValue {
    match v {
        serde_json::Value::Null => JsonValue::Null,
        serde_json::Value::Bool(b) => JsonValue::Bool(*b),
        serde_json::Value::Number(n) => JsonValue::Number(n.to_string()),
        serde_json::Value::String(s) => JsonValue::String(s.clone()),
        serde_json::Value::Array(a) => JsonValue::Array(a.iter().map(from_serde).collect()),
        serde_json::Value::Object(o) => JsonValue::Object(
            o.iter().map(|(k, x)| (k.clone(), from_serde(x))).collect(),
        ),
    }
}

/// Conversion of the library's value into a `serde_json::Value`, member for
/// member; number text that is not a JSON number becomes null.
#[verifier::external_body]
fn to_serde(v: &JsonValue) -> serde_json::Value {
    match v {
        JsonValue::Null => serde_json::Value::Null,
        JsonValue::Bool(b) => serde_json::Value::Bool(*b),
        JsonValue::Number(n) => n.parse::<serde_json::Number>().map(serde_json::Value::Number).unwrap_or(serde_json::Value::Null),
        JsonValue::String(s) => serde_json::Value::String(s.clone()),
        JsonValue::Array(a) => serde_json::Value::Array(a.iter().map(to_serde).collect()),
        JsonValue::Object(o) => serde_json::Value::Object(o.iter().map(|(k, x)| (k.clone(), to_serde(x))).collect()),
    }
}

/// The compact JSON text of a value, as `serde_json::Value`'s `Display` writes it.
pub uninterp spec fn spec_json_text(v: JsonValue) -> Seq<char>;

/// `serde_json::Value::to_string`: the compact JSON text of a value. The
/// result is named, not stated.
#[verifier::external_body]
pub(crate) fn json_text(v: &JsonValue) -> (r: String)
    ensures
        r@ == spec_json_text(*v),
{
    to_serde(v).to_string()
}

/// `serde_json::from_str::<serde_json::Value>`: reads a JSON document; on failure
/// gives the parser's message. The result is named, not stated.
#[verifier::external_body]
pub(crate) fn parse_json(text: &str) -> (r: core::result::Result<JsonValue, String>)
    ensures
        match r {
            Ok(v) => spec_parse_json(text@) == Ok::<JsonValue, Seq<char>>(v),
            Err(m) => spec_parse_json(text@) == Err::<JsonValue, Seq<char>>(m@),
        },
{
    match serde_json::from_str::<serde_json::Value>(text) {
        Ok(v) => Ok(from_serde(&v)),
        Err(e) => Err(e.to_string()),
    }
}

/// The first member named `key` of an object.
pub open spec fn spec_member(members: Seq<(String, JsonValue)>, key: Seq<char>) -> Option<JsonValue>
    decreases members.len(),
{
    if members.len() == 0 {
        None
    } else if members[0].0@ == key {
        Some(members[0].1)
    } else {
        spec_member(members.drop_first(), key)
    }
}

impl JsonValue {
    /// The member `key` of an object; `None` for other values.
    pub open spec fn spec_get(self, key: Seq<char>) -> Option<JsonValue> {
        match self {
            JsonValue::Object(m) => spec_member(m@, key),
            _ => None,
        }
    }

    /// The text of a string value.
    pub open spec fn spec_as_str(self) -> Option<Seq<char>> {
        match self {
            JsonValue::String(s) => Some(s@),
            _ => None,
        }
    }

    /// The member `key` of an object.
    pub fn get(&self, key: &str) -> (r: Option<&JsonValue>)
        ensures
            match r {
                Some(v) => self.spec_get(key@) == Some(*v),
                None => self.spec_get(key@).is_none(),
            },
    {
        match self {
            JsonValue::Object(m) => {
                let n = m.len();
                let mut i: usize = 0;
                assert(m@.skip(0) =~= m@);
                while i < n
                    invariant
                        0 <= i <= n == m@.len(),
                        self.spec_get(key@) == spec_member(m@.skip(i as int), key@),
                    decreases n - i,
                {
                    assert(m@.skip(i as int).drop_first() =~= m@.skip(i + 1));
                    assert(m@.skip(i as int)[0] == m@[i as int]);
                    if str_eq(m[i].0.as_str(), key) {
                        return Some(&m[i].1);
                    }
                    i = i + 1;
                }
                None
            },
            _ => None,
        }
    }

    /// Read a JSON text; a text that is not JSON is a JSON error carrying the
    /// parser's message.
    pub fn parse_text(text: &str) -> (r: core::result::Result<JsonValue, crate::error::Error>)
        ensures
            match spec_parse_json(text@) {
                Ok(v) => r == Ok::<JsonValue, crate::error::Error>(v),
                Err(m) => r matches Err(crate::error::Error::Json(e)) && e@ == m,
            },
    {
        match parse_json(text) {
            Ok(v) => Ok(v),
            Err(m) => Err(crate::error::Error::Json(m)),
        }
    }

    /// The member `key` of an object, taken out of it; `None` for other values.
    pub fn into_member(self, key: &str) -> (r: Option<JsonValue>)
        ensures
            r == self.spec_get(key@),
    {
        let ghost whole = self;
        match self {
            JsonValue::Object(members) => {
                let mut m = members;
                let ghost orig = m@;
                assert(whole.spec_get(key@) == spec_member(orig, key@));
                let n = m.len();
                let mut i: usize = 0;
                assert(m@.skip(0) =~= m@);
                while i < n
                    invariant
                        0 <= i <= n == m@.len(),
                        m@ == orig,
                        whole.spec_get(key@) == spec_member(orig, key@),
                        whole == self,
                        spec_member(orig, key@) == spec_member(m@.skip(i as int), key@),
                    decreases n - i,
                {
                    assert(m@.skip(i as int).drop_first() =~= m@.skip(i + 1));
                    assert(m@.skip(i as int)[0] == m@[i as int]);
                    if str_eq(m[i].0.as_str(), key) {
                        let e = m.remove(i);
                        assert(e == orig[i as int]);
                        assert(spec_member(orig.skip(i as int), key@) == Some(orig[i as int].1));
                        return Some(e.1);
                    }
                    i = i + 1;
                }
                None
            },
            _ => None,
        }
    }

    /// The text of a string value.
    pub fn as_str(&self) -> (r: Option<&str>)
        ensures
            match r {
                Some(s) => self.spec_as_str() == Some(s@),
                None => self.spec_as_str().is_none(),
            },
    {
        match self {
            JsonValue::String(s) => Some(s.as_str()),
            _ => None,
        }
    }
}

}
