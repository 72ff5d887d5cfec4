//! Field values of records and the display-value mode of a request.

use vstd::prelude::*;
use crate::model::json::{spec_member, JsonValue};
use crate::text::{owned, str_eq};

verus! {

/// Controls whether the API returns raw values, display values, or both.
#[derive(Debug, Clone, Copy, PartialEq, Eq, Structural)]
pub enum DisplayValue {
    /// Raw database values (the default).
    Raw,
    /// Display (rendered) values.
    Display,
    /// Both raw and display values.
    Both,
}

pub open spec fn spec_display_param(d: DisplayValue) -> Seq<char> {
    match d {
        DisplayValue::Raw => "false"@,
        DisplayValue::Display => "true"@,
        DisplayValue::Both => "all"@,
    }
}

impl DisplayValue {
    /// The value of the `sysparm_display_value` parameter.
    pub fn as_param(&self) -> (r: &'static str)
        ensures
            r@ == spec_display_param(*self),
    {
        match self {
            DisplayValue::Raw => "false",
            DisplayValue::Display => "true",
            DisplayValue::Both => "all",
        }
    }
}

impl Default for DisplayValue {
    fn default() -> (r: Self)
        ensures
            r == DisplayValue::Raw,
    {
        DisplayValue::Raw
    }
}

/// The characters of an optional string.
pub open spec fn opt_view(o: Option<String>) -> Option<Seq<char>> {
    match o {
        Some(s) => Some(s@),
        None => None,
    }
}

/// A field as plain values: raw value, display text, reference link.
pub type FieldView = (Option<JsonValue>, Option<Seq<char>>, Option<Seq<char>>);

/// A single field value of a record.
///
/// With `sysparm_display_value=all` both `value` and `display_value` are set;
/// otherwise one of them, according to the mode.
#[derive(Debug)]
pub struct FieldValue {
    /// The raw database value.
    pub value: Option<JsonValue>,
    /// The human-readable display value.
    pub display_value: Option<String>,
    /// Reference link URL (for reference fields).
    pub link: Option<String>,
}

impl View for FieldValue {
    type V = FieldView;

    open spec fn view(&self) -> FieldView {
        (self.value, opt_view(self.display_value), opt_view(self.link))
    }
}

/// The text of a raw value that is a JSON string.
pub open spec fn spec_raw_str(value: Option<JsonValue>) -> Option<Seq<char>> {
    match value {
        Some(JsonValue::String(s)) => Some(s@),
        _ => None,
    }
}

/// The string form of a field: its display value, else its raw string value.
pub open spec fn spec_field_str(f: FieldView) -> Option<Seq<char>> {
    match f.1 {
        Some(d) => Some(d),
        None => spec_raw_str(f.0),
    }
}

/// The member `key` of an object when it is a string.
pub open spec fn spec_member_str(m: Seq<(String, JsonValue)>, key: Seq<char>) -> Option<Seq<char>> {
    match spec_member(m, key) {
        Some(JsonValue::String(s)) => Some(s@),
        _ => None,
    }
}

/// A field given as a plain JSON value.
pub open spec fn spec_simple_field(json: JsonValue, mode: DisplayValue) -> FieldView {
    match mode {
        DisplayValue::Display => (
            None,
            Some(
                match json {
                    JsonValue::String(s) => s@,
                    _ => Seq::empty(),
                },
            ),
            None,
        ),
        _ => (Some(json), None, None),
    }
}

/// How a JSON value becomes a field. An object with a `value` or a
/// `display_value` member is the expanded form; anything else is a plain
/// value, kept as the raw value, or, in display mode, as the display text.
pub open spec fn spec_parse_field_value(json: JsonValue, mode: DisplayValue) -> FieldView {
    match json {
        JsonValue::Object(m) => if spec_member(m@, "value"@).is_some() || spec_member(
            m@,
            "display_value"@,
        ).is_some() {
            (
                spec_member(m@, "value"@),
                spec_member_str(m@, "display_value"@),
                spec_member_str(m@, "link"@),
            )
        } else {
            spec_simple_field(json, mode)
        },
        _ => spec_simple_field(json, mode),
    }
}

impl FieldValue {
    /// A field holding only a raw value.
    pub fn from_raw(value: JsonValue) -> (r: Self)
        ensures
            r.value == Some(value),
            r.display_value.is_none(),
            r.link.is_none(),
    {
        FieldValue { value: Some(value), display_value: None, link: None }
    }

    /// A field holding only a display value.
    pub fn from_display(display: String) -> (r: Self)
        ensures
            r.value.is_none(),
            r.display_value == Some(display),
            r.link.is_none(),
    {
        FieldValue { value: None, display_value: Some(display), link: None }
    }

    /// The value as a string, preferring the display value.
    pub fn as_str(&self) -> (r: Option<&str>)
        ensures
            opt_str_view(r) == spec_field_str(self@),
    {
        match &self.display_value {
            Some(d) => Some(d.as_str()),
            None => self.raw_str(),
        }
    }

    /// The raw value, when it is a string.
    pub fn raw_str(&self) -> (r: Option<&str>)
        ensures
            opt_str_view(r) == spec_raw_str(self.value),
    {
        match &self.value {
            Some(JsonValue::String(s)) => Some(s.as_str()),
            _ => None,
        }
    }

    /// The display value.
    pub fn display_str(&self) -> (r: Option<&str>)
        ensures
            opt_str_view(r) == self@.1,
    {
        match &self.display_value {
            Some(d) => Some(d.as_str()),
            None => None,
        }
    }
}

/// The characters of an optional string slice.
pub open spec fn opt_str_view(o: Option<&str>) -> Option<Seq<char>> {
    match o {
        Some(s) => Some(s@),
        None => None,
    }
}

/// The string member `key` of an object, copied.
fn member_string(m: &Vec<(String, JsonValue)>, key: &str) -> (r: Option<String>)
    ensures
        opt_view(r) == spec_member_str(m@, key@),
{
    let n = m.len();
    let mut i: usize = 0;
    assert(m@.skip(0) =~= m@);
    while i < n
        invariant
            0 <= i <= n == m@.len(),
            spec_member(m@, key@) == spec_member(m@.skip(i as int), key@),
        decreases n - i,
    {
        assert(m@.skip(i as int).drop_first() =~= m@.skip(i + 1));
        assert(m@.skip(i as int)[0] == m@[i as int]);
        if str_eq(m[i].0.as_str(), key) {
            return match &m[i].1 {
                JsonValue::String(s) => Some(owned(s.as_str())),
                _ => None,
            };
        }
        i = i + 1;
    }
    None
}

/// Whether an object has a member `key`.
fn has_member(m: &Vec<(String, JsonValue)>, key: &str) -> (r: bool)
    ensures
        r == spec_member(m@, key@).is_some(),
{
    let n = m.len();
    let mut i: usize = 0;
    assert(m@.skip(0) =~= m@);
    while i < n
        invariant
            0 <= i <= n == m@.len(),
            spec_member(m@, key@) == spec_member(m@.skip(i as int), key@),
        decreases n - i,
    {
        assert(m@.skip(i as int).drop_first() =~= m@.skip(i + 1));
        assert(m@.skip(i as int)[0] == m@[i as int]);
        if str_eq(m[i].0.as_str(), key) {
            return true;
        }
        i = i + 1;
    }
    false
}

/// Take the first member `key` out of an object.
pub(crate) fn take_member_pub(members: Vec<(String, JsonValue)>, key: &str) -> (r: Option<JsonValue>)
    ensures
        r == spec_member(members@, key@),
{
    let mut m = members;
    let ghost orig = m@;
    let n = m.len();
    let mut i: usize = 0;
    assert(m@.skip(0) =~= m@);
    while i < n
        invariant
            0 <= i <= n == m@.len(),
            m@ == orig,
            orig == members@,
            spec_member(m@, key@) == spec_member(m@.skip(i as int), key@),
        decreases n - i,
    {
        assert(m@.skip(i as int).drop_first() =~= m@.skip(i + 1));
        assert(m@.skip(i as int)[0] == m@[i as int]);
        if str_eq(m[i].0.as_str(), key) {
            let e = m.remove(i);
            assert(e == orig[i as int]);
            assert(spec_member(orig.skip(i as int), key@) == Some(orig[i as int].1));
            return Some(e.1);
        }
        i = i + 1;
    }
    None
}

/// Parse a JSON value into a field, in the simple or the expanded format.
///
/// With `sysparm_display_value=all` the instance returns
/// `{ "display_value": "Display", "value": "raw", "link": "..." }`;
/// otherwise a plain value.
pub fn parse_field_value(json: JsonValue, mode: DisplayValue) -> (r: FieldValue)
    ensures
        r@ == spec_parse_field_value(json, mode),
{
    let ghost orig = json;
    match json {
        JsonValue::Object(m) => {
            if has_member(&m, "value") || has_member(&m, "display_value") {
                let display_value = member_string(&m, "display_value");
                let link = member_string(&m, "link");
                let value = take_member_pub(m, "value");
                return FieldValue { value, display_value, link };
            }
            simple_field(JsonValue::Object(m), mode)
        },
        other => simple_field(other, mode),
    }
}

fn simple_field(json: JsonValue, mode: DisplayValue) -> (r: FieldValue)
    ensures
        r@ == spec_simple_field(json, mode),
{
    match mode {
        DisplayValue::Display => {
            let text = match &json {
                JsonValue::String(s) => owned(s.as_str()),
                _ => String::new(),
            };
            FieldValue { value: None, display_value: Some(text), link: None }
        },
        _ => FieldValue::from_raw(json),
    }
}

}
