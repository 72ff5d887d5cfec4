//! Attachment metadata as the Attachment API returns it.

use vstd::prelude::*;
use crate::model::json::{json_text, spec_json_text, JsonValue};
use crate::text::{all_digits, digits_value, owned, parse_uint, push_str, spec_parse_uint, spec_trim, trim_str};

verus! {

/// Metadata of one attachment.
#[derive(Debug, Clone)]
pub struct AttachmentMetadata {
    pub sys_id: String,
    pub file_name: String,
    pub table_name: String,
    pub table_sys_id: String,
    pub content_type: String,
    pub size_bytes: Option<u64>,
    pub size_compressed: Option<u64>,
    pub compressed: Option<String>,
    pub state: Option<String>,
    pub download_link: Option<String>,
    pub sys_created_on: Option<String>,
    pub sys_created_by: Option<String>,
    pub sys_updated_on: Option<String>,
    pub sys_updated_by: Option<String>,
}

/// What `str::parse::<u64>` reports for text that is not a `u64`, as its
/// error's `Display` writes it.
pub uninterp spec fn spec_parse_u64_error(text: Seq<char>) -> Seq<char>;

/// The message of the error that `str::parse::<u64>` reports for `text`, as
/// the error's `Display` writes it: named, not stated. `text` is one that the
/// parse refuses, which its documentation describes as anything but an
/// optional `+` followed by decimal digits that fit.
#[verifier::external_body]
fn parse_u64_error(text: &str) -> (m: String)
    requires
        spec_parse_uint(text@, 0xffff_ffff_ffff_ffff).is_none(),
    ensures
        m@ == spec_parse_u64_error(text@),
{
    match text.parse::<u64>() {
        Err(e) => e.to_string(),
        Ok(_) => String::new(),
    }
}

/// A JSON number's text as an unsigned 64-bit integer: digits only, and a value that fits.
pub open spec fn spec_json_u64(text: Seq<char>) -> Option<u64> {
    if text.len() > 0 && all_digits(text) && digits_value(text) <= 0xffff_ffff_ffff_ffff {
        Some(digits_value(text) as u64)
    } else {
        None
    }
}

/// An optional size as the Attachment API gives it: absent or null is none;
/// a number must be an unsigned integer; a string is trimmed, blank is none,
/// and otherwise must parse as an unsigned integer; anything else is an error.
pub open spec fn spec_optional_u64(value: Option<JsonValue>) -> Result<Option<u64>, Seq<char>> {
    match value {
        None => Ok(None),
        Some(JsonValue::Null) => Ok(None),
        Some(JsonValue::Number(n)) => match spec_json_u64(n@) {
            Some(x) => Ok(Some(x)),
            None => Err("expected unsigned integer"@),
        },
        Some(JsonValue::String(s)) => {
            let t = spec_trim(s@);
            if t.len() == 0 {
                Ok(None)
            } else {
                match spec_parse_uint(t, 0xffff_ffff_ffff_ffff) {
                    Some(x) => Ok(Some(x as u64)),
                    None => Err(spec_parse_u64_error(t)),
                }
            }
        },
        Some(other) => Err("expected integer string, got "@ + spec_json_text(other)),
    }
}

/// The characters of a result whose error is a message.
pub open spec fn result_view(r: Result<Option<u64>, String>) -> Result<Option<u64>, Seq<char>> {
    match r {
        Ok(x) => Ok(x),
        Err(m) => Err(m@),
    }
}

/// Read an optional size of the Attachment API.
pub fn optional_u64_from_json(value: Option<&JsonValue>) -> (r: Result<Option<u64>, String>)
    ensures
        result_view(r) == spec_optional_u64(match value {
            Some(v) => Some(*v),
            None => None,
        }),
{
    match value {
        None => Ok(None),
        Some(JsonValue::Null) => Ok(None),
        Some(JsonValue::Number(n)) => {
            let t = n.as_str();
            if starts_with_plus(t) {
                return Err(owned("expected unsigned integer"));
            }
            match parse_uint(t, 0xffff_ffff_ffff_ffff) {
                Some(x) => {
                    assert(spec_json_u64(t@) == Some(x));
                    Ok(Some(x))
                },
                None => {
                    assert(spec_json_u64(t@).is_none());
                    Err(owned("expected unsigned integer"))
                },
            }
        },
        Some(JsonValue::String(s)) => {
            let t = trim_str(s.as_str());
            if t.is_empty() {
                Ok(None)
            } else {
                match parse_uint(t, 0xffff_ffff_ffff_ffff) {
                    Some(x) => Ok(Some(x)),
                    None => Err(parse_u64_error(t)),
                }
            }
        },
        Some(other) => {
            let mut m = owned("expected integer string, got ");
            push_str(&mut m, json_text(other).as_str());
            Err(m)
        },
    }
}

fn starts_with_plus(t: &str) -> (r: bool)
    ensures
        r == (t@.len() > 0 && t@[0] == '+'),
{
    let v = crate::text::str_chars(t);
    v.len() > 0 && v[0] == '+'
}

} // verus!
