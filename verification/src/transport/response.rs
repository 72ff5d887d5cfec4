//! Interpreting the instance's HTTP responses: status, headers and body.

use vstd::prelude::*;
use crate::error::Error;
use crate::model::json::{parse_json, spec_member, spec_parse_json, JsonValue};
use crate::model::record::member_ref;
use crate::model::value::{opt_str_view, opt_view};
use crate::text::{
    decimal_string, find_sub, owned, parse_uint, push_str, spec_decimal, spec_find_char,
    spec_find_sub, spec_parse_uint, spec_split, spec_trim, split_char, str_chars, str_eq,
    string_from_range, trim, lemma_find_char_props,
};

verus! {

/// Parsed RFC 5988 `Link` header of a paginated response.
#[derive(Debug)]
pub struct PaginationLinks {
    /// URL of the first page.
    pub first: Option<String>,
    /// URL of the previous page.
    pub prev: Option<String>,
    /// URL of the next page.
    pub next: Option<String>,
    /// URL of the last page.
    pub last: Option<String>,
}

/// The links as plain values: first, prev, next, last.
pub type LinksView = (Option<Seq<char>>, Option<Seq<char>>, Option<Seq<char>>, Option<Seq<char>>);

impl View for PaginationLinks {
    type V = LinksView;

    open spec fn view(&self) -> LinksView {
        (opt_view(self.first), opt_view(self.prev), opt_view(self.next), opt_view(self.last))
    }
}

impl PaginationLinks {
    /// No links.
    pub fn none() -> (r: Self)
        ensures
            r@ == (None::<Seq<char>>, None::<Seq<char>>, None::<Seq<char>>, None::<Seq<char>>),
    {
        PaginationLinks { first: None, prev: None, next: None, last: None }
    }

    /// Whether there is a next page.
    pub fn has_next(&self) -> (r: bool)
        ensures
            r == self.next.is_some(),
    {
        self.next.is_some()
    }
}

/// The URL of one link: the text between the first `<` and the first `>`.
pub open spec fn spec_part_url(p: Seq<char>) -> Option<Seq<char>> {
    match (spec_find_char(p, '<'), spec_find_char(p, '>')) {
        (Some(a), Some(b)) => Some(p.subrange(a + 1, b)),
        _ => None,
    }
}

/// A link whose first `>` comes before its first `<` cannot be cut.
pub open spec fn spec_part_ok(p: Seq<char>) -> bool {
    match (spec_find_char(p, '<'), spec_find_char(p, '>')) {
        (Some(a), Some(b)) => a + 1 <= b,
        _ => true,
    }
}

/// The relation of one link: the text after the first `rel="` up to the next `"`.
pub open spec fn spec_part_rel(p: Seq<char>) -> Option<Seq<char>> {
    match spec_find_sub(p, "rel=\""@) {
        Some(i) => Some(spec_split(p.skip(i + 5), '"')[0]),
        None => None,
    }
}

/// The links after one more link of the header is read.
pub open spec fn spec_apply_link(l: LinksView, p: Seq<char>) -> LinksView {
    match (spec_part_url(p), spec_part_rel(p)) {
        (Some(u), Some(r)) => if r == "first"@ {
            (Some(u), l.1, l.2, l.3)
        } else if r == "prev"@ {
            (l.0, Some(u), l.2, l.3)
        } else if r == "next"@ {
            (l.0, l.1, Some(u), l.3)
        } else if r == "last"@ {
            (l.0, l.1, l.2, Some(u))
        } else {
            l
        },
        _ => l,
    }
}

/// The links of a sequence of comma-separated header parts, each trimmed.
pub open spec fn spec_links_of(parts: Seq<Seq<char>>) -> LinksView
    decreases parts.len(),
{
    if parts.len() == 0 {
        (None, None, None, None)
    } else {
        spec_apply_link(spec_links_of(parts.drop_last()), spec_trim(parts.last()))
    }
}

/// What a `Link` header gives.
pub open spec fn spec_parse_link_header(h: Seq<char>) -> LinksView {
    spec_links_of(spec_split(h, ','))
}

/// A header every part of which can be cut.
pub open spec fn spec_link_header_ok(h: Seq<char>) -> bool {
    forall|i: int| 0 <= i < spec_split(h, ',').len() ==> spec_part_ok(spec_trim(#[trigger] spec_split(h, ',')[i]))
}

/// Index of the first occurrence of `c`.
fn find_char(v: &[char], c: char) -> (r: Option<usize>)
    ensures
        match r {
            Some(i) => spec_find_char(v@, c) == Some(i as int),
            None => spec_find_char(v@, c).is_none(),
        },
{
    let n = v.len();
    let mut i: usize = 0;
    while i < n
        invariant
            0 <= i <= n == v@.len(),
            forall|k: int| 0 <= k < i ==> v@[k] != c,
        decreases n - i,
    {
        if v[i] == c {
            proof {
                crate::text::lemma_find_char_at(v@, c, i as int);
            }
            return Some(i);
        }
        i = i + 1;
    }
    proof {
        crate::text::lemma_find_char_none(v@, c);
    }
    None
}

/// Whether one part of a `Link` header can be cut.
fn part_ok(p: &[char]) -> (r: bool)
    ensures
        r == spec_part_ok(p@),
{
    match (find_char(p, '<'), find_char(p, '>')) {
        (Some(a), Some(b)) => a < b,
        _ => true,
    }
}

/// Whether every part of a `Link` header can be cut, so that
/// `parse_link_header` can read it.
pub fn link_header_ok(header: &str) -> (r: bool)
    ensures
        r == spec_link_header_ok(header@),
{
    let parts = split_char(header, ',');
    let n = parts.len();
    let mut i: usize = 0;
    while i < n
        invariant
            0 <= i <= n == parts@.len() == spec_split(header@, ',').len(),
            forall|j: int| 0 <= j < parts@.len() ==> #[trigger] parts@[j]@ == spec_split(header@, ',')[j],
            forall|j: int| 0 <= j < i ==> spec_part_ok(spec_trim(#[trigger] spec_split(header@, ',')[j])),
        decreases n - i,
    {
        let t = trim(parts[i].as_str());
        let v = str_chars(t.as_str());
        if !part_ok(&v) {
            assert(!spec_part_ok(spec_trim(spec_split(header@, ',')[i as int])));
            return false;
        }
        i = i + 1;
    }
    true
}

proof fn lemma_split_nonempty(s: Seq<char>, c: char)
    ensures
        spec_split(s, c).len() >= 1,
{
    reveal_with_fuel(spec_split, 1);
}

/// The URL of one trimmed part.
fn part_url(v: &[char]) -> (r: Option<String>)
    requires
        spec_part_ok(v@),
    ensures
        opt_view(r) == spec_part_url(v@),
{
    match (find_char(v, '<'), find_char(v, '>')) {
        (Some(a), Some(b)) => {
            proof {
                lemma_find_char_props(v@, '>');
            }
            Some(string_from_range(v, a + 1, b))
        },
        _ => None,
    }
}

/// The relation of one trimmed part.
fn part_rel(v: &[char]) -> (r: Option<String>)
    ensures
        opt_view(r) == spec_part_rel(v@),
{
    let pat = str_chars("rel=\"");
    proof {
        reveal_strlit("rel=\"");
    }
    assert(pat@.len() == 5);
    match find_sub(v, &pat) {
        Some(i) => {
            proof {
                crate::text::lemma_find_sub_from_some(v@, pat@, 0);
            }
            assert(i + 5 <= v.len());
            let rest = string_from_range(v, i + 5, v.len());
            assert(rest@ =~= v@.skip(i + 5));
            let pieces = split_char(rest.as_str(), '"');
            proof {
                lemma_split_nonempty(rest@, '"');
            }
            Some(pieces[0].clone())
        },
        None => None,
    }
}

/// Record one link.
fn apply_part(links: &mut PaginationLinks, v: &[char])
    requires
        spec_part_ok(v@),
    ensures
        final(links)@ == spec_apply_link(old(links)@, v@),
{
    let url = part_url(v);
    let rel = part_rel(v);
    match (url, rel) {
        (Some(u), Some(r)) => {
            if str_eq(r.as_str(), "first") {
                links.first = Some(u);
            } else if str_eq(r.as_str(), "prev") {
                links.prev = Some(u);
            } else if str_eq(r.as_str(), "next") {
                links.next = Some(u);
            } else if str_eq(r.as_str(), "last") {
                links.last = Some(u);
            }
        },
        _ => {},
    }
}

/// Parse an RFC 5988 `Link` header into pagination links.
///
/// Format: `<URL>;rel="first", <URL>;rel="next", ...`. Parts without both a
/// URL and a relation, or with another relation, are skipped; a later link of
/// the same relation replaces an earlier one.
pub fn parse_link_header(header: &str) -> (r: PaginationLinks)
    requires
        spec_link_header_ok(header@),
    ensures
        r@ == spec_parse_link_header(header@),
{
    let parts = split_char(header, ',');
    let n = parts.len();
    let mut links = PaginationLinks::none();
    let ghost ps = spec_split(header@, ',');
    let mut i: usize = 0;
    assert(ps.take(0) =~= Seq::<Seq<char>>::empty());
    while i < n
        invariant
            0 <= i <= n == parts@.len() == ps.len(),
            ps == spec_split(header@, ','),
            spec_link_header_ok(header@),
            forall|j: int| 0 <= j < parts@.len() ==> #[trigger] parts@[j]@ == ps[j],
            links@ == spec_links_of(ps.take(i as int)),
        decreases n - i,
    {
        let t = trim(parts[i].as_str());
        let v = str_chars(t.as_str());
        assert(spec_part_ok(spec_trim(ps[i as int])));
        apply_part(&mut links, &v);
        assert(ps.take(i + 1).drop_last() =~= ps.take(i as int));
        assert(ps.take(i + 1).last() == ps[i as int]);
        i = i + 1;
    }
    assert(ps.take(n as int) =~= ps);
    links
}

/// Parsed response of the API.
#[derive(Debug)]
pub struct ServiceNowResponse {
    /// HTTP status code.
    pub status: u16,
    /// The `result` member of the response body.
    pub result: JsonValue,
    /// Total count from the `X-Total-Count` header, if present.
    pub total_count: Option<u64>,
    /// Parsed `Link` header.
    pub links: PaginationLinks,
}

/// The message of an error body: `error.message` when it is a string.
pub open spec fn spec_error_message(body: Seq<char>) -> Option<Seq<char>> {
    match spec_parse_json(body) {
        Ok(v) => match v.spec_get("error"@) {
            Some(e) => e.spec_get("message"@).unwrap_or(JsonValue::Null).spec_as_str(),
            None => None,
        },
        Err(_) => None,
    }
}

/// Try to extract an error message from a response body.
pub fn extract_error_message(body: &str) -> (r: Option<String>)
    ensures
        opt_view(r) == spec_error_message(body@),
{
    match parse_json(body) {
        Ok(v) => match v.get("error") {
            Some(e) => match e.get("message") {
                Some(JsonValue::String(s)) => Some(s.clone()),
                _ => None,
            },
            None => None,
        },
        Err(_) => None,
    }
}

/// An optional header parsed as a decimal `u64`.
pub open spec fn spec_header_u64(h: Option<Seq<char>>) -> Option<u64> {
    match h {
        Some(s) => match spec_parse_uint(s, 0xffff_ffff_ffff_ffff) {
            Some(n) => Some(n as u64),
            None => None,
        },
        None => None,
    }
}

fn header_u64(h: Option<&str>) -> (r: Option<u64>)
    ensures
        r == spec_header_u64(opt_str_view(h)),
{
    match h {
        Some(s) => parse_uint(s, 0xffff_ffff_ffff_ffff),
        None => None,
    }
}

/// The first 500 characters of a body, kept as error detail.
pub open spec fn spec_body_excerpt(body: Seq<char>) -> Seq<char> {
    if body.len() <= 500 {
        body
    } else {
        body.take(500)
    }
}

fn body_excerpt(body: &[char]) -> (r: String)
    ensures
        r@ == spec_body_excerpt(body@),
{
    let end = if body.len() <= 500 { body.len() } else { 500 };
    let r = string_from_range(body, 0, end);
    assert(body@.len() <= 500 ==> r@ =~= body@);
    assert(body@.len() > 500 ==> r@ =~= body@.take(500));
    r
}

/// What a response with a JSON body gives, after the status checks.
pub open spec fn spec_json_outcome(status: u16, v: JsonValue, e: Error) -> bool {
    match v.spec_get("error"@) {
        Some(err) => e matches Error::Api { status: s, message, detail } && s == status && message@ == (
            match err.spec_get("message"@) {
                Some(JsonValue::String(m)) => m@,
                _ => "unknown error"@,
            }) && opt_view(detail) == (match err.spec_get("detail"@) {
                Some(JsonValue::String(d)) => Some(d@),
                _ => None,
            }),
        None => false,
    }
}

/// Interpret a response from its status, its `X-Total-Count`, `Link` and
/// `Retry-After` headers, and its body.
///
/// 401 and 403 are authentication errors carrying `error.message` of the body,
/// or `unauthorized`/`forbidden`; 429 is a rate-limit error carrying
/// `Retry-After`; 204 or an empty body is success with a null result; a body
/// that is not JSON, a body with an `error` member, and any other status of
/// 400 or more are API errors; otherwise the `result` member is returned.
pub fn interpret_response(
    status: u16,
    total_count_header: Option<&str>,
    link_header: Option<&str>,
    retry_after_header: Option<&str>,
    body: &str,
) -> (r: Result<ServiceNowResponse, Error>)
    requires
        link_header matches Some(h) ==> spec_link_header_ok(h@),
    ensures
        status == 401 || status == 403 ==> (r matches Err(Error::Auth { message, status: s }) && s
            == Some(status) && message@ == (match spec_error_message(body@) {
            Some(m) => m,
            None => if status == 401 {
                "unauthorized"@
            } else {
                "forbidden"@
            },
        })),
        status == 429 ==> (r matches Err(Error::RateLimited { retry_after }) && retry_after
            == spec_header_u64(opt_str_view(retry_after_header))),
        status != 401 && status != 403 && status != 429 && (status == 204 || body@.len() == 0) ==> (r matches Ok(resp)
            && resp.result == JsonValue::Null),
        status != 401 && status != 403 && status != 429 && status != 204 && body@.len() > 0 ==> match spec_parse_json(body@) {
            Err(pe) => (r matches Err(Error::Api { status: s, message, detail }) && s == status && message@
                == "failed to parse response JSON: "@ + pe && opt_view(detail) == Some(spec_body_excerpt(body@))),
            Ok(v) => if v.spec_get("error"@).is_some() {
                (r matches Err(e) && spec_json_outcome(status, v, e))
            } else if status >= 400 {
                (r matches Err(Error::Api { status: s, message, detail }) && s == status && message@
                    == "HTTP "@ + spec_decimal(status as nat) && opt_view(detail) == Some(spec_body_excerpt(body@)))
            } else {
                (r matches Ok(resp) && resp.result == (match v.spec_get("result"@) {
                    Some(x) => x,
                    None => JsonValue::Null,
                }))
            },
        },
        r matches Ok(resp) ==> (resp.status == status && resp.total_count == spec_header_u64(
            opt_str_view(total_count_header),
        ) && resp.links@ == (match link_header {
            Some(h) => spec_parse_link_header(h@),
            None => (None::<Seq<char>>, None::<Seq<char>>, None::<Seq<char>>, None::<Seq<char>>),
        })),
{
    let total_count = header_u64(total_count_header);
    let links = match link_header {
        Some(h) => parse_link_header(h),
        None => PaginationLinks::none(),
    };
    if status == 401 || status == 403 {
        let message = match extract_error_message(body) {
            Some(m) => m,
            None => if status == 401 {
                owned("unauthorized")
            } else {
                owned("forbidden")
            },
        };
        return Err(Error::Auth { message, status: Some(status) });
    }
    if status == 429 {
        return Err(Error::RateLimited { retry_after: header_u64(retry_after_header) });
    }
    if status == 204 || body.is_empty() {
        return Ok(ServiceNowResponse { status, result: JsonValue::Null, total_count, links });
    }
    let chars = str_chars(body);
    let json = match parse_json(body) {
        Ok(v) => v,
        Err(e) => {
            let mut message = owned("failed to parse response JSON: ");
            push_str(&mut message, e.as_str());
            return Err(Error::Api { status, message, detail: Some(body_excerpt(&chars)) });
        },
    };
    match json.get("error") {
        Some(err) => {
            let message = match err.get("message") {
                Some(JsonValue::String(m)) => m.clone(),
                _ => owned("unknown error"),
            };
            let detail = match err.get("detail") {
                Some(JsonValue::String(d)) => Some(d.clone()),
                _ => None,
            };
            return Err(Error::Api { status, message, detail });
        },
        None => {},
    }
    if status >= 400 {
        let mut message = owned("HTTP ");
        let digits = decimal_string(status as u64);
        push_str(&mut message, digits.as_str());
        return Err(Error::Api { status, message, detail: Some(body_excerpt(&chars)) });
    }
    let ghost v = json;
    let result = match json {
        JsonValue::Object(m) => match crate::model::value::take_member_pub(m, "result") {
            Some(x) => x,
            None => JsonValue::Null,
        },
        _ => JsonValue::Null,
    };
    Ok(ServiceNowResponse { status, result, total_count, links })
}

}
