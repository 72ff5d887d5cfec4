//! Recognising table reads that the GraphQL transport can serve.

use vstd::prelude::*;
use crate::error::Error;
use crate::text::{
    concat, owned, parse_uint, push_str, spec_parse_uint, spec_split, spec_trim, split_char,
    str_chars, str_eq, string_from_range, strings_view, trim,
};
use crate::model::json::{json_text, spec_json_text, JsonValue};
use crate::model::record::starts_with;
use crate::model::value::opt_view;
use crate::transport::response::ServiceNowResponse;
use crate::transport::selection::{TransportMode, TransportSelection};
use crate::text::decimal_string;

verus! {

/// A table read expressed as a GraphQL operation.
#[derive(Debug)]
pub enum GraphqlOperation {
    TableList {
        table: String,
        query: Option<String>,
        fields: Vec<String>,
        limit: Option<u32>,
        offset: Option<u32>,
        display_value: String,
        exclude_reference_link: bool,
    },
    TableGet {
        table: String,
        sys_id: String,
        fields: Vec<String>,
        display_value: String,
        exclude_reference_link: bool,
    },
}

/// The non-empty trimmed pieces of a comma-separated list.
pub open spec fn spec_csv(pieces: Seq<Seq<char>>) -> Seq<Seq<char>>
    decreases pieces.len(),
{
    if pieces.len() == 0 {
        Seq::empty()
    } else {
        let rest = spec_csv(pieces.drop_last());
        let t = spec_trim(pieces.last());
        if t.len() == 0 {
            rest
        } else {
            rest.push(t)
        }
    }
}

/// The items of a comma-separated list: trimmed, empty ones dropped.
pub fn split_csv(input: &str) -> (r: Vec<String>)
    ensures
        r@.len() == spec_csv(spec_split(input@, ',')).len(),
        forall|i: int| 0 <= i < r@.len() ==> #[trigger] r@[i]@ == spec_csv(spec_split(input@, ','))[i],
{
    let pieces = split_char(input, ',');
    let ghost ps = spec_split(input@, ',');
    let n = pieces.len();
    let mut out: Vec<String> = Vec::new();
    let mut i: usize = 0;
    assert(ps.take(0) =~= Seq::<Seq<char>>::empty());
    while i < n
        invariant
            0 <= i <= n == pieces@.len() == ps.len(),
            ps == spec_split(input@, ','),
            forall|j: int| 0 <= j < pieces@.len() ==> #[trigger] pieces@[j]@ == ps[j],
            out@.len() == spec_csv(ps.take(i as int)).len(),
            forall|j: int| 0 <= j < out@.len() ==> #[trigger] out@[j]@ == spec_csv(ps.take(i as int))[j],
        decreases n - i,
    {
        let t = trim(pieces[i].as_str());
        assert(ps.take(i + 1).drop_last() =~= ps.take(i as int));
        assert(ps.take(i + 1).last() == ps[i as int]);
        if !t.as_str().is_empty() {
            out.push(t);
        }
        i = i + 1;
    }
    assert(ps.take(n as int) =~= ps);
    out
}

/// The state of a list read while its parameters are read: query, fields,
/// limit, offset, display value, exclusion of reference links.
pub type ListParams = (Option<Seq<char>>, Seq<Seq<char>>, Option<u32>, Option<u32>, Seq<char>, bool);

/// A parameter value parsed as `u32`, `None` when it is not one.
pub open spec fn spec_opt_u32(v: Seq<char>) -> Option<u32> {
    match spec_parse_uint(v, 0xffff_ffff) {
        Some(n) => Some(n as u32),
        None => None,
    }
}

/// List parameters after reading `params`; `None` once an unsupported parameter is seen.
pub open spec fn spec_list_params(params: Seq<(String, String)>) -> Option<ListParams>
    decreases params.len(),
{
    if params.len() == 0 {
        Some((None, Seq::empty(), None, None, "false"@, false))
    } else {
        match spec_list_params(params.drop_last()) {
            None => None,
            Some(st) => {
                let k = params.last().0@;
                let v = params.last().1@;
                if k == "sysparm_query"@ {
                    Some((Some(v), st.1, st.2, st.3, st.4, st.5))
                } else if k == "sysparm_fields"@ {
                    Some((st.0, spec_csv(spec_split(v, ',')), st.2, st.3, st.4, st.5))
                } else if k == "sysparm_limit"@ {
                    Some((st.0, st.1, spec_opt_u32(v), st.3, st.4, st.5))
                } else if k == "sysparm_offset"@ {
                    Some((st.0, st.1, st.2, spec_opt_u32(v), st.4, st.5))
                } else if k == "sysparm_display_value"@ {
                    Some((st.0, st.1, st.2, st.3, v, st.5))
                } else if k == "sysparm_exclude_reference_link"@ {
                    Some((st.0, st.1, st.2, st.3, st.4, v == "true"@))
                } else if k == "sysparm_no_count"@ {
                    Some(st)
                } else {
                    None
                }
            },
        }
    }
}

/// The state of a single-record read while its parameters are read: fields,
/// display value, exclusion of reference links.
pub type GetParams = (Seq<Seq<char>>, Seq<char>, bool);

/// Single-record parameters after reading `params`; `None` once a list
/// parameter (query, limit, offset, no-count) is seen. Other parameters are ignored.
pub open spec fn spec_get_params(params: Seq<(String, String)>) -> Option<GetParams>
    decreases params.len(),
{
    if params.len() == 0 {
        Some((Seq::empty(), "false"@, false))
    } else {
        match spec_get_params(params.drop_last()) {
            None => None,
            Some(st) => {
                let k = params.last().0@;
                let v = params.last().1@;
                if k == "sysparm_fields"@ {
                    Some((spec_csv(spec_split(v, ',')), st.1, st.2))
                } else if k == "sysparm_display_value"@ {
                    Some((st.0, v, st.2))
                } else if k == "sysparm_exclude_reference_link"@ {
                    Some((st.0, st.1, v == "true"@))
                } else if k == "sysparm_query"@ || k == "sysparm_limit"@ || k == "sysparm_offset"@
                    || k == "sysparm_no_count"@ {
                    None
                } else {
                    Some(st)
                }
            },
        }
    }
}

/// The table-path prefix.
pub open spec fn spec_table_prefix() -> Seq<char> {
    "/api/now/table/"@
}

/// The path after the table-path prefix, if the path has it.
pub open spec fn spec_strip_table_prefix(path: Seq<char>) -> Option<Seq<char>> {
    let p = spec_table_prefix();
    if p.len() <= path.len() && path.take(p.len() as int) == p {
        Some(path.skip(p.len() as int))
    } else {
        None
    }
}

fn strip_table_prefix(path: &str) -> (r: Option<String>)
    ensures
        match r {
            Some(s) => spec_strip_table_prefix(path@) == Some(s@),
            None => spec_strip_table_prefix(path@).is_none(),
        },
{
    if starts_with(path, "/api/now/table/") {
        let v = str_chars(path);
        let p = str_chars("/api/now/table/");
        let rest = string_from_range(&v, p.len(), v.len());
        assert(rest@ =~= path@.skip(spec_table_prefix().len() as int));
        Some(rest)
    } else {
        None
    }
}

fn unsupported_path(path: &str) -> (r: Error)
    ensures
        r matches Error::Query(m) && m@ == "unsupported GraphQL path '"@ + path@ + "'"@,
{
    let mut m = concat("unsupported GraphQL path '", path);
    push_str(&mut m, "'");
    Error::Query(m)
}

proof fn lemma_list_params_none(params: Seq<(String, String)>, i: int)
    requires
        0 <= i <= params.len(),
        spec_list_params(params.take(i)).is_none(),
    ensures
        spec_list_params(params).is_none(),
    decreases params.len() - i,
{
    if i < params.len() {
        assert(params.take(i + 1).drop_last() =~= params.take(i));
        lemma_list_params_none(params, i + 1);
    } else {
        assert(params.take(i) =~= params);
    }
}

proof fn lemma_get_params_none(params: Seq<(String, String)>, i: int)
    requires
        0 <= i <= params.len(),
        spec_get_params(params.take(i)).is_none(),
    ensures
        spec_get_params(params).is_none(),
    decreases params.len() - i,
{
    if i < params.len() {
        assert(params.take(i + 1).drop_last() =~= params.take(i));
        lemma_get_params_none(params, i + 1);
    } else {
        assert(params.take(i) =~= params);
    }
}

fn read_list_params(params: &[(String, String)]) -> (r: Option<(Option<String>, Vec<String>, Option<u32>, Option<u32>, String, bool)>)
    ensures
        match r {
            Some(st) => spec_list_params(params@) == Some((
                crate::model::value::opt_view(st.0),
                strings_view(st.1@),
                st.2,
                st.3,
                st.4@,
                st.5,
            )),
            None => spec_list_params(params@).is_none(),
        },
{
    let mut query: Option<String> = None;
    let mut fields: Vec<String> = Vec::new();
    let mut limit: Option<u32> = None;
    let mut offset: Option<u32> = None;
    let mut display_value = owned("false");
    let mut exclude = false;
    let n = params.len();
    let mut i: usize = 0;
    assert(params@.take(0) =~= Seq::<(String, String)>::empty());
    assert(strings_view(fields@) =~= Seq::<Seq<char>>::empty());
    while i < n
        invariant
            0 <= i <= n == params@.len(),
            spec_list_params(params@.take(i as int)) == Some((
                crate::model::value::opt_view(query),
                strings_view(fields@),
                limit,
                offset,
                display_value@,
                exclude,
            )),
        decreases n - i,
    {
        let k = params[i].0.as_str();
        let v = params[i].1.as_str();
        assert(params@.take(i + 1).drop_last() =~= params@.take(i as int));
        assert(params@.take(i + 1).last() == params@[i as int]);
        if str_eq(k, "sysparm_query") {
            query = Some(owned(v));
        } else if str_eq(k, "sysparm_fields") {
            fields = split_csv(v);
            assert(strings_view(fields@) =~= spec_csv(spec_split(v@, ',')));
        } else if str_eq(k, "sysparm_limit") {
            limit = match parse_uint(v, 0xffff_ffff) {
                Some(x) => Some(x as u32),
                None => None,
            };
        } else if str_eq(k, "sysparm_offset") {
            offset = match parse_uint(v, 0xffff_ffff) {
                Some(x) => Some(x as u32),
                None => None,
            };
        } else if str_eq(k, "sysparm_display_value") {
            display_value = owned(v);
        } else if str_eq(k, "sysparm_exclude_reference_link") {
            exclude = str_eq(v, "true");
        } else if str_eq(k, "sysparm_no_count") {
        } else {
            proof {
                lemma_list_params_none(params@, i + 1);
            }
            return None;
        }
        i = i + 1;
    }
    assert(params@.take(n as int) =~= params@);
    Some((query, fields, limit, offset, display_value, exclude))
}

fn read_get_params(params: &[(String, String)]) -> (r: Option<(Vec<String>, String, bool)>)
    ensures
        match r {
            Some(st) => spec_get_params(params@) == Some((strings_view(st.0@), st.1@, st.2)),
            None => spec_get_params(params@).is_none(),
        },
{
    let mut fields: Vec<String> = Vec::new();
    let mut display_value = owned("false");
    let mut exclude = false;
    let n = params.len();
    let mut i: usize = 0;
    assert(params@.take(0) =~= Seq::<(String, String)>::empty());
    assert(strings_view(fields@) =~= Seq::<Seq<char>>::empty());
    while i < n
        invariant
            0 <= i <= n == params@.len(),
            spec_get_params(params@.take(i as int)) == Some((strings_view(fields@), display_value@, exclude)),
        decreases n - i,
    {
        let k = params[i].0.as_str();
        let v = params[i].1.as_str();
        assert(params@.take(i + 1).drop_last() =~= params@.take(i as int));
        assert(params@.take(i + 1).last() == params@[i as int]);
        if str_eq(k, "sysparm_fields") {
            fields = split_csv(v);
            assert(strings_view(fields@) =~= spec_csv(spec_split(v@, ',')));
        } else if str_eq(k, "sysparm_display_value") {
            display_value = owned(v);
        } else if str_eq(k, "sysparm_exclude_reference_link") {
            exclude = str_eq(v, "true");
        } else if str_eq(k, "sysparm_query") || str_eq(k, "sysparm_limit") || str_eq(k, "sysparm_offset")
            || str_eq(k, "sysparm_no_count") {
            proof {
                lemma_get_params_none(params@, i + 1);
            }
            return None;
        }
        i = i + 1;
    }
    assert(params@.take(n as int) =~= params@);
    Some((fields, display_value, exclude))
}

impl GraphqlOperation {
    /// The table read of a list, when the path names a table and every
    /// parameter is one GraphQL supports.
    pub open spec fn spec_list(self) -> Option<(Seq<char>, ListParams)> {
        match self {
            GraphqlOperation::TableList { table, query, fields, limit, offset, display_value, exclude_reference_link } =>
                Some((table@, (crate::model::value::opt_view(query), strings_view(fields@), limit, offset, display_value@, exclude_reference_link))),
            _ => None,
        }
    }

    /// The table and sys_id of a single-record read, and its parameters.
    pub open spec fn spec_get(self) -> Option<(Seq<char>, Seq<char>, GetParams)> {
        match self {
            GraphqlOperation::TableGet { table, sys_id, fields, display_value, exclude_reference_link } =>
                Some((table@, sys_id@, (strings_view(fields@), display_value@, exclude_reference_link))),
            _ => None,
        }
    }

    /// A single-record read `/api/now/table/<table>/<sys_id>` with only
    /// field, display-value and reference-link parameters.
    ///
    /// Errors when the path is not a table path; `None` when it is not a
    /// single-record path or a list parameter is present.
    pub fn from_table_get(path: &str, params: &[(String, String)]) -> (r: Result<Option<Self>, Error>)
        ensures
            match spec_strip_table_prefix(path@) {
                None => r matches Err(Error::Query(m)) && m@ == "unsupported GraphQL path '"@ + path@ + "'"@,
                Some(rest) => {
                    let segs = spec_split(rest, '/');
                    if segs[0].len() == 0 || segs.len() != 2 || spec_get_params(params@).is_none() {
                        r matches Ok(None)
                    } else {
                        r matches Ok(Some(op)) && op.spec_get() == Some((segs[0], segs[1], spec_get_params(params@).unwrap()))
                    }
                },
            },
    {
        let rest = match strip_table_prefix(path) {
            Some(r) => r,
            None => {
                return Err(unsupported_path(path));
            },
        };
        let segs = split_char(rest.as_str(), '/');
        proof {
            reveal_with_fuel(spec_split, 1);
        }
        if segs[0].as_str().is_empty() || segs.len() != 2 {
            return Ok(None);
        }
        let (fields, display_value, exclude_reference_link) = match read_get_params(params) {
            Some(st) => st,
            None => {
                return Ok(None);
            },
        };
        Ok(Some(GraphqlOperation::TableGet {
            table: segs[0].clone(),
            sys_id: segs[1].clone(),
            fields,
            display_value,
            exclude_reference_link,
        }))
    }

    /// A list read `/api/now/table/<table>` whose parameters are all ones
    /// GraphQL supports.
    ///
    /// Errors when the path is not a table path; `None` when the table name is
    /// empty or holds `/`, or an unsupported parameter is present.
    pub fn from_table_list(path: &str, params: &[(String, String)]) -> (r: Result<Option<Self>, Error>)
        ensures
            match spec_strip_table_prefix(path@) {
                None => r matches Err(Error::Query(m)) && m@ == "unsupported GraphQL path '"@ + path@ + "'"@,
                Some(table) => if table.len() == 0 || table.contains('/') || spec_list_params(params@).is_none() {
                    r matches Ok(None)
                } else {
                    r matches Ok(Some(op)) && op.spec_list() == Some((table, spec_list_params(params@).unwrap()))
                },
            },
    {
        let table = match strip_table_prefix(path) {
            Some(r) => r,
            None => {
                return Err(unsupported_path(path));
            },
        };
        let tv = str_chars(table.as_str());
        let mut has_slash = false;
        let mut i: usize = 0;
        while i < tv.len()
            invariant
                0 <= i <= tv@.len(),
                tv@ == table@,
                has_slash == exists|j: int| 0 <= j < i && tv@[j] == '/',
            decreases tv@.len() - i,
        {
            if tv[i] == '/' {
                has_slash = true;
            }
            i = i + 1;
        }
        if tv.len() == 0 || has_slash {
            return Ok(None);
        }
        let (query, fields, limit, offset, display_value, exclude_reference_link) = match read_list_params(params) {
            Some(st) => st,
            None => {
                return Ok(None);
            },
        };
        Ok(Some(GraphqlOperation::TableList {
            table,
            query,
            fields,
            limit,
            offset,
            display_value,
            exclude_reference_link,
        }))
    }
}


/// A GraphQL request: the query text and its variables.
#[derive(Debug)]
pub struct GraphqlRequest {
    pub query: String,
    pub variables: JsonValue,
}

impl GraphqlRequest {
    /// A request with no variables.
    pub fn new(query: &str) -> (r: Self)
        ensures
            r.query@ == query@,
            r.variables matches JsonValue::Object(m) && m@.len() == 0,
    {
        GraphqlRequest { query: owned(query), variables: JsonValue::Object(Vec::new()) }
    }

    /// The request with these variables.
    pub fn variables(self, variables: JsonValue) -> (r: Self)
        ensures
            r.query == self.query,
            r.variables == variables,
    {
        let mut r = self;
        r.variables = variables;
        r
    }
}

/// The query text of a list read.
pub open spec fn spec_list_query() -> Seq<char> {
    "query TableList($table: String!, $query: String, $fields: [String!], $limit: Int, $offset: Int, $displayValue: String!, $excludeReferenceLink: Boolean!) { table(name: $table) { records(query: $query, fields: $fields, limit: $limit, offset: $offset, displayValue: $displayValue, excludeReferenceLink: $excludeReferenceLink) } }"@
}

/// The query text of a single-record read.
pub open spec fn spec_get_query() -> Seq<char> {
    "query TableGet($table: String!, $sysId: String!, $fields: [String!], $displayValue: String!, $excludeReferenceLink: Boolean!) { table(name: $table) { record(sysId: $sysId, fields: $fields, displayValue: $displayValue, excludeReferenceLink: $excludeReferenceLink) } }"@
}

/// Whether `v` is a JSON string holding `s`.
pub open spec fn is_json_string(v: JsonValue, s: Seq<char>) -> bool {
    v matches JsonValue::String(t) && t@ == s
}

/// Whether `v` is a JSON array of the strings `ss`.
pub open spec fn is_string_array(v: JsonValue, ss: Seq<Seq<char>>) -> bool {
    v matches JsonValue::Array(a) && a@.len() == ss.len() && forall|i: int| 0 <= i < ss.len() ==> is_json_string(#[trigger] a@[i], ss[i])
}

/// Whether `v` is the JSON form of an optional string: the string, or null.
pub open spec fn is_opt_string(v: JsonValue, o: Option<Seq<char>>) -> bool {
    match o {
        Some(s) => is_json_string(v, s),
        None => v is Null,
    }
}

/// Whether `v` is the JSON form of an optional number: its decimal text, or null.
pub open spec fn is_opt_number(v: JsonValue, o: Option<u32>) -> bool {
    match o {
        Some(n) => v matches JsonValue::Number(t) && t@ == crate::text::spec_decimal(n as nat),
        None => v is Null,
    }
}

/// Whether `m` holds member `k` at position `i`.
pub open spec fn member_at(m: Seq<(String, JsonValue)>, i: int, k: Seq<char>) -> bool {
    0 <= i < m.len() && m[i].0@ == k
}

/// The variables of a list read: table, query, fields, limit, offset,
/// display mode and the exclusion of reference links, in that order.
pub open spec fn is_list_variables(v: JsonValue, table: Seq<char>, p: ListParams) -> bool {
    v matches JsonValue::Object(m) && m@.len() == 7
        && member_at(m@, 0, "table"@) && is_json_string(m@[0].1, table)
        && member_at(m@, 1, "query"@) && is_opt_string(m@[1].1, p.0)
        && member_at(m@, 2, "fields"@) && is_string_array(m@[2].1, p.1)
        && member_at(m@, 3, "limit"@) && is_opt_number(m@[3].1, p.2)
        && member_at(m@, 4, "offset"@) && is_opt_number(m@[4].1, p.3)
        && member_at(m@, 5, "displayValue"@) && is_json_string(m@[5].1, p.4)
        && member_at(m@, 6, "excludeReferenceLink"@) && m@[6].1 == JsonValue::Bool(p.5)
}

/// The variables of a single-record read: table, sys_id, fields, display
/// mode and the exclusion of reference links, in that order.
pub open spec fn is_get_variables(v: JsonValue, table: Seq<char>, sys_id: Seq<char>, p: GetParams) -> bool {
    v matches JsonValue::Object(m) && m@.len() == 5
        && member_at(m@, 0, "table"@) && is_json_string(m@[0].1, table)
        && member_at(m@, 1, "sysId"@) && is_json_string(m@[1].1, sys_id)
        && member_at(m@, 2, "fields"@) && is_string_array(m@[2].1, p.0)
        && member_at(m@, 3, "displayValue"@) && is_json_string(m@[3].1, p.1)
        && member_at(m@, 4, "excludeReferenceLink"@) && m@[4].1 == JsonValue::Bool(p.2)
}

fn string_array(v: &Vec<String>) -> (r: JsonValue)
    ensures
        is_string_array(r, strings_view(v@)),
{
    let mut out: Vec<JsonValue> = Vec::new();
    let n = v.len();
    let mut i: usize = 0;
    while i < n
        invariant
            0 <= i <= n == v@.len(),
            out@.len() == i,
            forall|j: int| 0 <= j < i ==> is_json_string(#[trigger] out@[j], v@[j]@),
        decreases n - i,
    {
        out.push(JsonValue::String(v[i].clone()));
        i = i + 1;
    }
    JsonValue::Array(out)
}

fn opt_string(o: &Option<String>) -> (r: JsonValue)
    ensures
        is_opt_string(r, opt_view(*o)),
{
    match o {
        Some(s) => JsonValue::String(s.clone()),
        None => JsonValue::Null,
    }
}

fn opt_number(o: Option<u32>) -> (r: JsonValue)
    ensures
        is_opt_number(r, o),
{
    match o {
        Some(n) => JsonValue::Number(decimal_string(n as u64)),
        None => JsonValue::Null,
    }
}

/// The result of a GraphQL answer for an operation: the `records` of its
/// `table` for a list (none becomes an empty array), the `record` of its
/// `table` for a single record; a missing part is an API error carrying the
/// answer's text.
pub open spec fn spec_extract_result(list: bool, data: JsonValue, r: Result<JsonValue, Error>) -> bool {
    match data.spec_get("table"@) {
        None => r matches Err(Error::Api { status, message, detail }) && status == 200 && message@
            == "missing `table` in GraphQL response"@ && opt_view(detail) == Some(spec_json_text(data)),
        Some(t) => if list {
            match t.spec_get("records"@) {
                Some(x) => r == Ok::<JsonValue, Error>(x),
                None => r matches Ok(JsonValue::Array(a)) && a@.len() == 0,
            }
        } else {
            match t.spec_get("record"@) {
                Some(x) => r == Ok::<JsonValue, Error>(x),
                None => r matches Err(Error::Api { status, message, detail }) && status == 200 && message@
                    == "missing `record` in GraphQL response"@ && opt_view(detail) == Some(spec_json_text(data)),
            }
        },
    }
}

impl GraphqlOperation {
    /// The GraphQL request of the operation.
    pub fn request(&self) -> (r: GraphqlRequest)
        ensures
            match self.spec_list() {
                Some((table, p)) => r.query@ == spec_list_query() && is_list_variables(r.variables, table, p),
                None => match self.spec_get() {
                    Some((table, sys_id, p)) => r.query@ == spec_get_query() && is_get_variables(r.variables, table, sys_id, p),
                    None => false,
                },
            },
    {
        match self {
            GraphqlOperation::TableList { table, query, fields, limit, offset, display_value, exclude_reference_link } => {
                let members = vec![
                    (owned("table"), JsonValue::String(table.clone())),
                    (owned("query"), opt_string(query)),
                    (owned("fields"), string_array(fields)),
                    (owned("limit"), opt_number(*limit)),
                    (owned("offset"), opt_number(*offset)),
                    (owned("displayValue"), JsonValue::String(display_value.clone())),
                    (owned("excludeReferenceLink"), JsonValue::Bool(*exclude_reference_link)),
                ];
                GraphqlRequest::new(
                    "query TableList($table: String!, $query: String, $fields: [String!], $limit: Int, $offset: Int, $displayValue: String!, $excludeReferenceLink: Boolean!) { table(name: $table) { records(query: $query, fields: $fields, limit: $limit, offset: $offset, displayValue: $displayValue, excludeReferenceLink: $excludeReferenceLink) } }",
                ).variables(JsonValue::Object(members))
            },
            GraphqlOperation::TableGet { table, sys_id, fields, display_value, exclude_reference_link } => {
                let members = vec![
                    (owned("table"), JsonValue::String(table.clone())),
                    (owned("sysId"), JsonValue::String(sys_id.clone())),
                    (owned("fields"), string_array(fields)),
                    (owned("displayValue"), JsonValue::String(display_value.clone())),
                    (owned("excludeReferenceLink"), JsonValue::Bool(*exclude_reference_link)),
                ];
                GraphqlRequest::new(
                    "query TableGet($table: String!, $sysId: String!, $fields: [String!], $displayValue: String!, $excludeReferenceLink: Boolean!) { table(name: $table) { record(sysId: $sysId, fields: $fields, displayValue: $displayValue, excludeReferenceLink: $excludeReferenceLink) } }",
                ).variables(JsonValue::Object(members))
            },
        }
    }

    /// The number of fields the operation names.
    pub fn field_count(&self) -> (r: usize)
        ensures
            r == match self.spec_list() {
                Some((_, p)) => p.1.len(),
                None => match self.spec_get() {
                    Some((_, _, p)) => p.0.len(),
                    None => 0,
                },
            },
    {
        match self {
            GraphqlOperation::TableList { fields, .. } => fields.len(),
            GraphqlOperation::TableGet { fields, .. } => fields.len(),
        }
    }

    /// The result of the operation in a GraphQL answer's data.
    pub fn extract_result(&self, data: JsonValue) -> (r: Result<JsonValue, Error>)
        ensures
            spec_extract_result(self.spec_list().is_some(), data, r),
    {
        let list = match self {
            GraphqlOperation::TableList { .. } => true,
            GraphqlOperation::TableGet { .. } => false,
        };
        let has_table = data.get("table").is_some();
        if !has_table {
            return Err(Error::Api {
                status: 200,
                message: owned("missing `table` in GraphQL response"),
                detail: Some(json_text(&data)),
            });
        }
        if list {
            let table = data.into_member("table");
            match table {
                Some(t) => match t.into_member("records") {
                    Some(x) => Ok(x),
                    None => Ok(JsonValue::Array(Vec::new())),
                },
                None => Ok(JsonValue::Array(Vec::new())),
            }
        } else {
            let has_record = match data.get("table") {
                Some(t) => t.get("record").is_some(),
                None => false,
            };
            if !has_record {
                return Err(Error::Api {
                    status: 200,
                    message: owned("missing `record` in GraphQL response"),
                    detail: Some(json_text(&data)),
                });
            }
            match data.into_member("table") {
                Some(t) => match t.into_member("record") {
                    Some(x) => Ok(x),
                    None => Ok(JsonValue::Null),
                },
                None => Ok(JsonValue::Null),
            }
        }
    }
}

/// Whether a read goes through GraphQL: a single-record read always; a list
/// read when it names at least the threshold's number of fields or GraphQL is
/// the preferred transport.
pub open spec fn spec_select(selection: TransportSelection, path: Seq<char>, params: Seq<(String, String)>, r: Result<Option<GraphqlOperation>, Error>) -> bool {
    match spec_strip_table_prefix(path) {
        None => r matches Ok(None),
        Some(rest) => {
            let segs = spec_split(rest, '/');
            if !(segs[0].len() == 0 || segs.len() != 2 || spec_get_params(params).is_none()) {
                r matches Ok(Some(op)) && op.spec_get() == Some((segs[0], segs[1], spec_get_params(params).unwrap()))
            } else if rest.len() == 0 || rest.contains('/') || spec_list_params(params).is_none() {
                r matches Ok(None)
            } else if spec_list_params(params).unwrap().1.len() >= selection.graphql_batch_threshold
                || selection.preferred == TransportMode::Graphql {
                r matches Ok(Some(op)) && op.spec_list() == Some((rest, spec_list_params(params).unwrap()))
            } else {
                r matches Ok(None)
            }
        },
    }
}

/// The GraphQL operation that serves a read, if any.
pub fn select_operation(selection: &TransportSelection, path: &str, params: &[(String, String)]) -> (r: Result<Option<GraphqlOperation>, Error>)
    ensures
        spec_select(*selection, path@, params@, r),
{
    if !starts_with(path, "/api/now/table/") {
        return Ok(None);
    }
    match GraphqlOperation::from_table_get(path, params)? {
        Some(op) => {
            return Ok(Some(op));
        },
        None => {},
    }
    let op = match GraphqlOperation::from_table_list(path, params)? {
        Some(op) => op,
        None => {
            return Ok(None);
        },
    };
    let size = op.field_count();
    let preferred = match selection.preferred {
        TransportMode::Graphql => true,
        _ => false,
    };
    if size >= selection.graphql_batch_threshold || preferred {
        Ok(Some(op))
    } else {
        Ok(None)
    }
}

/// What the GraphQL transport does after a GraphQL read.
#[derive(Debug)]
pub enum GraphqlOutcome {
    /// Answer this.
    Done(Result<ServiceNowResponse, Error>),
    /// Read again over REST.
    FallBack,
}

/// A failed GraphQL read falls back to REST when the selection allows it;
/// anything else is answered.
pub fn after_graphql(selection: &TransportSelection, outcome: Result<ServiceNowResponse, Error>) -> (r: GraphqlOutcome)
    ensures
        match outcome {
            Ok(resp) => r == GraphqlOutcome::Done(Ok(resp)),
            Err(e) => if selection.graphql_fallback {
                r is FallBack
            } else {
                r == GraphqlOutcome::Done(Err(e))
            },
        },
{
    match outcome {
        Ok(resp) => GraphqlOutcome::Done(Ok(resp)),
        Err(e) => if selection.graphql_fallback {
            GraphqlOutcome::FallBack
        } else {
            GraphqlOutcome::Done(Err(e))
        },
    }
}

/// The answer of a GraphQL read: the result extracted from the answer's
/// data, with the answer's status, total count and links.
pub fn graphql_response(operation: &GraphqlOperation, response: ServiceNowResponse) -> (r: Result<ServiceNowResponse, Error>)
    ensures
        spec_extract_result(operation.spec_list().is_some(), response.result, match r {
            Ok(x) => Ok::<JsonValue, Error>(x.result),
            Err(e) => Err::<JsonValue, Error>(e),
        }),
        r matches Ok(x) ==> x.status == response.status && x.total_count == response.total_count && x.links@ == response.links@,
{
    let ServiceNowResponse { status, result, total_count, links } = response;
    let result = operation.extract_result(result)?;
    Ok(ServiceNowResponse { status, result, total_count, links })
}

}
