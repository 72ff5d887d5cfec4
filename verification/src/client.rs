//! The decisions of the client: the base URL, authentication and schema
//! that a configuration gives, browser links to records, and the queries and
//! request bodies of its convenience operations.

use vstd::prelude::*;
use crate::config::{is_http_url, normalize_instance_url, spec_normalized_url, spec_scheme, spec_url_parse, Config};
use crate::error::Error;
use crate::model::json::JsonValue;
use crate::model::record::Record;
use crate::model::value::{opt_view, DisplayValue};
use crate::prefix::{spec_lookup_number, PrefixRegistry};
use crate::query::batch::{foreign_key_value, spec_fk_value};
use crate::query::builder::{appended_condition, appended_order, spec_new_query, TableApi, TableApiView};
use crate::query::filter::{spec_valid_field_name, validate_field_name, Condition, Joiner, Operator, Order};
use crate::strmap::StrMap;
use crate::text::{owned, push_str, str_eq, strs_view};
use crate::transport::selection::{TransportMode, TransportSelection};

verus! {

/// How the client authenticates when no authenticator was given.
#[derive(Debug)]
pub enum AuthChoice {
    /// Basic authentication with a username and a password.
    Basic { username: String, password: String },
    /// A bearer token.
    Token(String),
}

/// The authentication a configuration asks for: `basic` (the default) needs
/// a username and a password, `token` or `bearer` needs a token, and any
/// other method is refused.
pub open spec fn spec_resolve_auth(config: Config, r: core::result::Result<AuthChoice, Error>) -> bool {
    let method = match config.auth.method {
        Some(m) => m@,
        None => "basic"@,
    };
    if method == "basic"@ {
        match (config.auth.username, config.auth.password) {
            (Some(u), Some(p)) => r matches Ok(AuthChoice::Basic { username, password }) && username@ == u@
                && password@ == p@,
            (None, _) => r matches Err(Error::Config(m)) && m@
                == "basic auth requires username. Set SERVICENOW_USERNAME or configure auth.username in servicenow.toml"@,
            (Some(_), None) => r matches Err(Error::Config(m)) && m@
                == "basic auth requires password. Set SERVICENOW_PASSWORD or configure auth.password in servicenow.toml"@,
        }
    } else if method == "token"@ || method == "bearer"@ {
        match config.auth.token {
            Some(t) => r matches Ok(AuthChoice::Token(tok)) && tok@ == t@,
            None => r matches Err(Error::Config(m)) && m@
                == "token auth requires a token. Set SERVICENOW_API_TOKEN or configure auth.token in servicenow.toml"@,
        }
    } else {
        r matches Err(Error::Config(m)) && m@ == "unsupported auth method '"@ + method + "'. Available: basic, token"@
    }
}

/// The authentication a configuration asks for.
pub fn resolve_auth_from_config(config: &Config) -> (r: core::result::Result<AuthChoice, Error>)
    ensures
        spec_resolve_auth(*config, r),
{
    let method: &str = match &config.auth.method {
        Some(m) => m.as_str(),
        None => "basic",
    };
    if str_eq(method, "basic") {
        let username = match &config.auth.username {
            Some(u) => u.clone(),
            None => {
                return Err(Error::Config(owned(
                    "basic auth requires username. Set SERVICENOW_USERNAME or configure auth.username in servicenow.toml",
                )));
            },
        };
        let password = match &config.auth.password {
            Some(p) => p.clone(),
            None => {
                return Err(Error::Config(owned(
                    "basic auth requires password. Set SERVICENOW_PASSWORD or configure auth.password in servicenow.toml",
                )));
            },
        };
        Ok(AuthChoice::Basic { username, password })
    } else if str_eq(method, "token") || str_eq(method, "bearer") {
        match &config.auth.token {
            Some(t) => Ok(AuthChoice::Token(t.clone())),
            None => Err(Error::Config(owned(
                "token auth requires a token. Set SERVICENOW_API_TOKEN or configure auth.token in servicenow.toml",
            ))),
        }
    } else {
        let mut m = owned("unsupported auth method '");
        push_str(&mut m, method);
        push_str(&mut m, "'. Available: basic, token");
        Err(Error::Config(m))
    }
}

/// The instance the client talks to: the builder's when given, else the
/// configuration's.
pub open spec fn spec_instance(instance_override: Option<&str>, config: Config) -> Option<Seq<char>> {
    match instance_override {
        Some(i) => Some(i@),
        None => opt_view(config.instance.url),
    }
}

/// The base URL of the client: the normalized instance URL, which must
/// parse, and must use HTTPS unless plain HTTP was allowed.
pub open spec fn spec_resolve_base_url(
    instance_override: Option<&str>,
    config: Config,
    allow_http: bool,
    r: core::result::Result<String, Error>,
) -> bool {
    match spec_instance(instance_override, config) {
        None => r matches Err(Error::Config(m)) && m@
            == "instance URL not configured. Set it via .instance(), SERVICENOW_INSTANCE env var, or servicenow.toml"@,
        Some(raw) => match spec_normalized_url(raw) {
            Err(m) => r matches Err(Error::Config(mm)) && mm@ == m,
            Ok(base) => match spec_url_parse(base) {
                Err(msg) => r matches Err(Error::UrlParse(m)) && m@ == msg,
                Ok(s) => if spec_scheme(s) == "http"@ && !allow_http {
                    r matches Err(Error::Config(m)) && m@
                        == "HTTP URLs are not allowed. Use HTTPS for all ServiceNow connections. Call .allow_http() on the builder for local testing."@
                } else {
                    r matches Ok(u) && u@ == base
                },
            },
        },
    }
}

/// The base URL of the client.
pub fn resolve_base_url(instance_override: Option<&str>, config: &Config, allow_http: bool) -> (r: core::result::Result<
    String,
    Error,
>)
    ensures
        spec_resolve_base_url(instance_override, *config, allow_http, r),
{
    let raw: &str = match instance_override {
        Some(i) => i,
        None => match &config.instance.url {
            Some(u) => u.as_str(),
            None => {
                return Err(Error::Config(owned(
                    "instance URL not configured. Set it via .instance(), SERVICENOW_INSTANCE env var, or servicenow.toml",
                )));
            },
        },
    };
    let normalized = normalize_instance_url(raw);
    let base = match normalized {
        Ok(b) => b,
        Err(e) => {
            return Err(e);
        },
    };
    match crate::config::url_serialization(base.as_str()) {
        Err(msg) => Err(Error::UrlParse(msg)),
        Ok(s) => {
            if is_http_url(s.as_str()) && !allow_http {
                Err(Error::Config(owned(
                    "HTTP URLs are not allowed. Use HTTPS for all ServiceNow connections. Call .allow_http() on the builder for local testing.",
                )))
            } else {
                Ok(base)
            }
        },
    }
}

/// The number of retries: the builder's, else the configuration's, else 3.
pub fn resolve_max_retries(max_retries: Option<u32>, config: &Config) -> (r: u32)
    ensures
        r == match max_retries {
            Some(n) => n,
            None => match config.transport.max_retries {
                Some(n) => n,
                None => 3,
            },
        },
{
    match max_retries {
        Some(n) => n,
        None => match config.transport.max_retries {
            Some(n) => n,
            None => 3,
        },
    }
}

/// The rate limit: the builder's, else the configuration's, else none.
pub fn resolve_rate_limit(rate_limit: Option<u32>, config: &Config) -> (r: Option<u32>)
    ensures
        r == match rate_limit {
            Some(n) => Some(n),
            None => config.transport.rate_limit,
        },
{
    match rate_limit {
        Some(n) => Some(n),
        None => config.transport.rate_limit,
    }
}

/// The request timeout in seconds when the builder set none: the
/// configuration's, else 30.
pub fn default_timeout_secs(config: &Config) -> (r: u64)
    ensures
        r == match config.transport.timeout_secs {
            Some(s) => s,
            None => 30,
        },
{
    match config.transport.timeout_secs {
        Some(s) => s,
        None => 30,
    }
}

/// The transport selection a configuration gives.
pub fn transport_selection(config: &Config) -> (r: TransportSelection)
    ensures
        r.preferred == config.transport.preferred,
        r.graphql_fallback == config.transport.graphql_fallback,
        r.graphql_batch_threshold == config.transport.graphql_batch_threshold,
{
    TransportSelection::new(
        config.transport.preferred,
        config.transport.graphql_fallback,
        config.transport.graphql_batch_threshold,
    )
}

/// Whether the client reads through the GraphQL transport: only when it is
/// preferred; the automatic choice is REST today.
pub fn uses_graphql(selection: &TransportSelection) -> (r: bool)
    ensures
        r == (selection.preferred == TransportMode::Graphql),
{
    match selection.preferred {
        TransportMode::Graphql => true,
        _ => false,
    }
}

/// Where the schema of a client comes from.
#[derive(Debug)]
pub enum SchemaPlan {
    /// No schema: no release was named.
    NoSchema,
    /// The bundled schema of a release.
    Release(String),
    /// A release with the overlay file that the builder named.
    ReleaseWithOverlayOverride(String),
    /// A release with the overlay file that the configuration names.
    ReleaseWithConfigOverlay(String, String),
}

/// The schema a client loads: the builder's release, else the
/// configuration's; with the builder's overlay, else the configuration's;
/// no schema without a release, whatever the overlay.
pub open spec fn spec_schema_plan(release_override: Option<&str>, has_overlay_override: bool, config: Config, r: SchemaPlan) -> bool {
    let release = match release_override {
        Some(rel) => Some(rel@),
        None => opt_view(config.schema.release),
    };
    match release {
        None => r is NoSchema,
        Some(rel) => if has_overlay_override {
            r matches SchemaPlan::ReleaseWithOverlayOverride(x) && x@ == rel
        } else {
            match config.schema.overlay {
                Some(o) => r matches SchemaPlan::ReleaseWithConfigOverlay(x, p) && x@ == rel && p@ == o@,
                None => r matches SchemaPlan::Release(x) && x@ == rel,
            }
        },
    }
}

/// The schema a client loads.
pub fn resolve_schema(release_override: Option<&str>, has_overlay_override: bool, config: &Config) -> (r: SchemaPlan)
    ensures
        spec_schema_plan(release_override, has_overlay_override, *config, r),
{
    let release = match release_override {
        Some(rel) => owned(rel),
        None => match &config.schema.release {
            Some(rel) => rel.clone(),
            None => {
                return SchemaPlan::NoSchema;
            },
        },
    };
    if has_overlay_override {
        SchemaPlan::ReleaseWithOverlayOverride(release)
    } else {
        match &config.schema.overlay {
            Some(o) => SchemaPlan::ReleaseWithConfigOverlay(release, o.clone()),
            None => SchemaPlan::Release(release),
        }
    }
}

/// The message for a value that is not a valid identifier.
pub open spec fn spec_identifier_error(value: Seq<char>, what: Seq<char>) -> Seq<char> {
    "invalid "@ + what + ": '"@ + value + "' — only alphanumeric, underscore, hyphen, and dot allowed"@
}

/// Check that a value placed into a URL or a query is a plain identifier: not
/// empty, and made of alphanumeric characters, `_`, `-` and `.` only.
pub fn validate_identifier(value: &str, what: &str) -> (r: core::result::Result<(), Error>)
    ensures
        r.is_ok() <==> spec_valid_field_name(value@),
        r matches Err(e) ==> (e matches Error::Query(m) && m@ == spec_identifier_error(value@, what@)),
{
    if validate_field_name(value) {
        Ok(())
    } else {
        let mut m = owned("invalid ");
        push_str(&mut m, what);
        push_str(&mut m, ": '");
        push_str(&mut m, value);
        push_str(&mut m, "' — only alphanumeric, underscore, hyphen, and dot allowed");
        Err(Error::Query(m))
    }
}

/// A browser link opening the record of `table` with the number `number`.
pub open spec fn spec_browser_url(base_url: Seq<char>, table: Seq<char>, number: Seq<char>) -> Seq<char> {
    base_url + "/nav_to.do?uri="@ + table + ".do?sysparm_query=number="@ + number
}

/// A browser link opening the record of `table` with the sys_id `sys_id`.
pub open spec fn spec_browser_url_by_id(base_url: Seq<char>, table: Seq<char>, sys_id: Seq<char>) -> Seq<char> {
    base_url + "/nav_to.do?uri="@ + table + ".do?sys_id="@ + sys_id
}

/// A link that opens a record in the browser by its number; fails when the
/// table or the number is not a plain identifier.
pub fn browser_url(base_url: &str, table: &str, number: &str) -> (r: core::result::Result<String, Error>)
    ensures
        r.is_ok() <==> spec_valid_field_name(table@) && spec_valid_field_name(number@),
        match r {
            Ok(u) => u@ == spec_browser_url(base_url@, table@, number@),
            Err(e) => e matches Error::Query(m) && m@ == if !spec_valid_field_name(table@) {
                spec_identifier_error(table@, "table name"@)
            } else {
                spec_identifier_error(number@, "record number"@)
            },
        },
{
    validate_identifier(table, "table name")?;
    validate_identifier(number, "record number")?;
    let mut u = owned(base_url);
    push_str(&mut u, "/nav_to.do?uri=");
    push_str(&mut u, table);
    push_str(&mut u, ".do?sysparm_query=number=");
    push_str(&mut u, number);
    Ok(u)
}

/// A link that opens a record in the browser by its sys_id; fails when the
/// table or the sys_id is not a plain identifier.
pub fn browser_url_by_id(base_url: &str, table: &str, sys_id: &str) -> (r: core::result::Result<String, Error>)
    ensures
        r.is_ok() <==> spec_valid_field_name(table@) && spec_valid_field_name(sys_id@),
        match r {
            Ok(u) => u@ == spec_browser_url_by_id(base_url@, table@, sys_id@),
            Err(e) => e matches Error::Query(m) && m@ == if !spec_valid_field_name(table@) {
                spec_identifier_error(table@, "table name"@)
            } else {
                spec_identifier_error(sys_id@, "sys_id"@)
            },
        },
{
    validate_identifier(table, "table name")?;
    validate_identifier(sys_id, "sys_id")?;
    let mut u = owned(base_url);
    push_str(&mut u, "/nav_to.do?uri=");
    push_str(&mut u, table);
    push_str(&mut u, ".do?sys_id=");
    push_str(&mut u, sys_id);
    Ok(u)
}

/// A browser link for a record number, its table resolved from the number's
/// prefix; `None` when the prefix is unknown.
pub fn browser_url_for_number(base_url: &str, registry: &PrefixRegistry, number: &str) -> (r: Option<
    core::result::Result<String, Error>,
>)
    ensures
        match spec_lookup_number(registry.spec_mappings(), number@) {
            None => r.is_none(),
            Some(table) => r matches Some(res) && (res.is_ok() <==> spec_valid_field_name(table)
                && spec_valid_field_name(number@)) && (res matches Ok(u) ==> u@ == spec_browser_url(
                base_url@,
                table,
                number@,
            )),
        },
{
    match registry.table_for_number(number) {
        Some(table) => Some(browser_url(base_url, table, number)),
        None => None,
    }
}

/// The table of a record number, or the error for an unknown prefix.
pub fn table_for_number_or_error<'a>(registry: &'a PrefixRegistry, number: &str) -> (r: core::result::Result<&'a str, Error>)
    ensures
        match spec_lookup_number(registry.spec_mappings(), number@) {
            Some(t) => r matches Ok(x) && x@ == t,
            None => r matches Err(Error::Query(m)) && m@ == "cannot resolve table for number '"@ + number@
                + "' — unknown prefix. Register it with .register_prefix() on the builder."@,
        },
{
    match registry.table_for_number(number) {
        Some(t) => Ok(t),
        None => {
            let mut m = owned("cannot resolve table for number '");
            push_str(&mut m, number);
            push_str(&mut m, "' — unknown prefix. Register it with .register_prefix() on the builder.");
            Err(Error::Query(m))
        },
    }
}

/// Whether `c` is the condition `field op value` joined with AND.
pub open spec fn is_and_condition(c: Condition, field: Seq<char>, op: Operator, value: Seq<char>) -> bool {
    c.joiner == Joiner::And && c.filter.field@ == field && c.filter.operator == op && c.filter.value@ == value
}

/// The fields read of journal entries.
pub open spec fn spec_journal_fields() -> Seq<Seq<char>> {
    seq!["sys_created_on"@, "sys_created_by"@, "value"@, "element"@, "element_id"@]
}

/// The query of the record with a number: the first one of its table.
pub fn number_query(table: &str, number: &str) -> (r: TableApi)
    ensures
        r@.conditions.len() == 1,
        is_and_condition(r@.conditions[0], "number"@, Operator::Equals, number@),
        r@ == (TableApiView { conditions: r@.conditions, limit: Some(1), ..spec_new_query(table@) }),
{
    TableApi::new(table).equals("number", number).limit(1)
}

/// The journal entries of one journal field of a record, newest first, read
/// from `sys_journal_field`.
///
/// That table is restricted on many instances: a user without access gets no
/// entries and no error.
pub fn journal_query(table: &str, sys_id: &str, field: &str) -> (r: TableApi)
    ensures
        r@.conditions.len() == 3,
        is_and_condition(r@.conditions[0], "element_id"@, Operator::Equals, sys_id@),
        is_and_condition(r@.conditions[1], "element"@, Operator::Equals, field@),
        is_and_condition(r@.conditions[2], "name"@, Operator::Equals, table@),
        r@.order_by.len() == 1,
        r@.order_by[0].0@ == "sys_created_on"@ && r@.order_by[0].1 == Order::Desc,
        r@ == (TableApiView {
            conditions: r@.conditions,
            fields: Some(spec_journal_fields()),
            order_by: r@.order_by,
            ..spec_new_query("sys_journal_field"@)
        }),
{
    let q = TableApi::new("sys_journal_field");
    let q = q.equals("element_id", sys_id);
    let q = q.equals("element", field);
    let q = q.equals("name", table);
    let fields = vec!["sys_created_on", "sys_created_by", "value", "element", "element_id"];
    assert(strs_view(fields@) =~= spec_journal_fields());
    let q = q.fields(fields.as_slice());
    let r = q.order_by("sys_created_on", Order::Desc);
    proof {
        let c = r@.conditions;
        assert(c.take(2).take(1)[0] == c[0]);
        assert(c.take(2)[1] == c[1]);
    }
    r
}

/// The journal entries of all journal fields of a record (work notes and
/// comments), newest first; each entry's `element` tells which.
pub fn journal_all_query(table: &str, sys_id: &str) -> (r: TableApi)
    ensures
        r@.conditions.len() == 2,
        is_and_condition(r@.conditions[0], "element_id"@, Operator::Equals, sys_id@),
        is_and_condition(r@.conditions[1], "name"@, Operator::Equals, table@),
        r@.order_by.len() == 1,
        r@.order_by[0].0@ == "sys_created_on"@ && r@.order_by[0].1 == Order::Desc,
        r@ == (TableApiView {
            conditions: r@.conditions,
            fields: Some(spec_journal_fields()),
            order_by: r@.order_by,
            ..spec_new_query("sys_journal_field"@)
        }),
{
    let q = TableApi::new("sys_journal_field");
    let q = q.equals("element_id", sys_id);
    let q = q.equals("name", table);
    let fields = vec!["sys_created_on", "sys_created_by", "value", "element", "element_id"];
    assert(strs_view(fields@) =~= spec_journal_fields());
    let q = q.fields(fields.as_slice());
    let r = q.order_by("sys_created_on", Order::Desc);
    proof {
        let c = r@.conditions;
        assert(c.take(1)[0] == c[0]);
    }
    r
}

/// The journal fields of a record read from the record itself, as display
/// text: the whole journal of each field, which any user who can read the
/// record can read.
pub fn journal_inline_query(table: &str, sys_id: &str, fields: &[&str]) -> (r: TableApi)
    ensures
        r@.conditions.len() == 1,
        is_and_condition(r@.conditions[0], "sys_id"@, Operator::Equals, sys_id@),
        r@ == (TableApiView {
            conditions: r@.conditions,
            fields: Some(strs_view(fields@)),
            display_value: DisplayValue::Display,
            ..spec_new_query(table@)
        }),
{
    TableApi::new(table).equals("sys_id", sys_id).fields(fields).display_value(DisplayValue::Display)
}

/// The query of the children of several parents at once: the foreign key
/// `IN` the parent ids, with the fields and display mode asked, reference
/// links excluded, and the ordering when one is given.
pub fn foreign_key_query(
    table: &str,
    foreign_key: &str,
    parent_ids: &[&str],
    fields: &[&str],
    display_value: DisplayValue,
    order_by: Option<(&str, Order)>,
) -> (r: TableApi)
    ensures
        r@.conditions.len() == 1,
        is_and_condition(
            r@.conditions[0],
            foreign_key@,
            Operator::In,
            crate::text::spec_join(strs_view(parent_ids@), ","@),
        ),
        match order_by {
            Some((f, o)) => r@.order_by.len() == 1 && r@.order_by[0].0@ == f@ && r@.order_by[0].1 == o,
            None => r@.order_by.len() == 0,
        },
        r@ == (TableApiView {
            conditions: r@.conditions,
            fields: Some(strs_view(fields@)),
            display_value,
            order_by: r@.order_by,
            ..spec_new_query(table@)
        }),
{
    let q = TableApi::new(table).in_list(foreign_key, parent_ids).fields(fields).display_value(display_value);
    let q = q.exclude_reference_link(true);
    match order_by {
        Some((field, direction)) => q.order_by(field, direction),
        None => q,
    }
}

/// The children of each parent by foreign key: every parent id starts with
/// no children; a record whose foreign key has no value is skipped.
pub open spec fn spec_fk_group(parent_ids: Seq<Seq<char>>, rs: Seq<Record>, fk: Seq<char>) -> Map<Seq<char>, Seq<Record>>
    decreases rs.len(),
{
    if rs.len() == 0 {
        Map::new(|k: Seq<char>| parent_ids.contains(k), |k: Seq<char>| Seq::empty())
    } else {
        let rest = spec_fk_group(parent_ids, rs.drop_last(), fk);
        let rec = rs.last();
        if rec.spec_fields().contains_key(fk) && crate::model::value::spec_field_str(rec.spec_fields()[fk]).is_some() {
            let id = spec_fk_value(rec, fk);
            rest.insert(id, (if rest.contains_key(id) {
                rest[id]
            } else {
                Seq::empty()
            }).push(rec))
        } else {
            rest
        }
    }
}

/// Group the records of a foreign-key query by the parent they name.
pub fn group_by_foreign_key(parent_ids: &[&str], records: Vec<Record>, foreign_key: &str) -> (r: StrMap<Vec<Record>>)
    ensures
        r@.map_values(|v: Vec<Record>| v@) == spec_fk_group(strs_view(parent_ids@), records@, foreign_key@),
{
    let mut out: StrMap<Vec<Record>> = StrMap::new();
    let ghost ids = strs_view(parent_ids@);
    let n = parent_ids.len();
    let mut i: usize = 0;
    while i < n
        invariant
            0 <= i <= n == parent_ids@.len(),
            ids == strs_view(parent_ids@),
            out@.map_values(|v: Vec<Record>| v@) == Map::new(
                |k: Seq<char>| ids.take(i as int).contains(k),
                |k: Seq<char>| Seq::<Record>::empty(),
            ),
        decreases n - i,
    {
        let ghost prev = out@.map_values(|v: Vec<Record>| v@);
        let empty: Vec<Record> = Vec::new();
        assert(empty@ =~= Seq::<Record>::empty());
        out.insert(owned(parent_ids[i]), empty);
        proof {
            assert(out@.map_values(|v: Vec<Record>| v@) =~= prev.insert(ids[i as int], Seq::<Record>::empty()));
            assert forall|k: Seq<char>| #[trigger] ids.take(i + 1).contains(k) <==> (ids.take(i as int).contains(k) || k == ids[i as int]) by {
                assert(ids.take(i + 1) =~= ids.take(i as int).push(ids[i as int]));
                crate::text::lemma_push_contains(ids.take(i as int), ids[i as int], k);
            }
            assert(out@.map_values(|v: Vec<Record>| v@) =~= Map::new(
                |k: Seq<char>| ids.take(i + 1).contains(k),
                |k: Seq<char>| Seq::<Record>::empty(),
            ));
        }
        i = i + 1;
    }
    assert(ids.take(n as int) =~= ids);
    let ghost all = records@;
    let mut rest = records;
    let m = rest.len();
    let mut j: usize = 0;
    assert(all.skip(0) =~= all);
    assert(all.take(0) =~= Seq::<Record>::empty());
    while j < m
        invariant
            0 <= j <= m == all.len(),
            rest@ == all.skip(j as int),
            out@.map_values(|v: Vec<Record>| v@) == spec_fk_group(ids, all.take(j as int), foreign_key@),
        decreases m - j,
    {
        let rec = rest.remove(0);
        assert(rest@ =~= all.skip(j + 1));
        assert(all.take(j + 1).drop_last() =~= all.take(j as int));
        assert(all.take(j + 1).last() == all[j as int]);
        let has_value = match rec.get_raw(foreign_key) {
            Some(_) => true,
            None => match rec.get_str(foreign_key) {
                Some(_) => true,
                None => false,
            },
        };
        proof {
            if rec.spec_fields().contains_key(foreign_key@) {
                let f = rec.spec_fields()[foreign_key@];
                if crate::model::value::spec_raw_str(f.0).is_some() {
                    assert(crate::model::value::spec_field_str(f).is_some());
                }
            }
        }
        if has_value {
            let id = foreign_key_value(&rec, foreign_key);
            let ghost prev = out@.map_values(|v: Vec<Record>| v@);
            let ghost idv = id@;
            let ghost recv = rec;
            let mut group = match out.remove(id.as_str()) {
                Some(g) => g,
                None => Vec::new(),
            };
            group.push(rec);
            out.insert(id, group);
            assert(out@.map_values(|v: Vec<Record>| v@) =~= prev.insert(idv, (if prev.contains_key(idv) {
                prev[idv]
            } else {
                Seq::empty()
            }).push(recv)));
        }
        j = j + 1;
    }
    assert(all.take(m as int) =~= all);
    out
}

/// A JSON object of string members, in order.
pub open spec fn is_string_object(body: JsonValue, members: Seq<(Seq<char>, Seq<char>)>) -> bool {
    body matches JsonValue::Object(m) && m@.len() == members.len() && forall|i: int|
        0 <= i < members.len() ==> (#[trigger] m@[i]).0@ == members[i].0 && (m@[i].1 matches JsonValue::String(s)
            && s@ == members[i].1)
}

/// The fields read back after a record update made by the convenience operations.
pub fn update_query(table: &str) -> (r: TableApi)
    ensures
        r@ == (TableApiView {
            fields: Some(seq!["sys_id"@, "number"@, "state"@]),
            display_value: DisplayValue::Both,
            ..spec_new_query(table@)
        }),
{
    let fields = vec!["sys_id", "number", "state"];
    assert(strs_view(fields@) =~= seq!["sys_id"@, "number"@, "state"@]);
    TableApi::new(table).fields(fields.as_slice()).display_value(DisplayValue::Both)
}

/// The body that appends a work note to a record.
pub fn work_note_body(note: &str) -> (r: JsonValue)
    ensures
        is_string_object(r, seq![("work_notes"@, note@)]),
{
    let members = vec![(owned("work_notes"), JsonValue::String(owned(note)))];
    let r = JsonValue::Object(members);
    assert(is_string_object(r, seq![("work_notes"@, note@)]));
    r
}

/// The body that changes the state of a record, with a work note when one is given.
pub fn state_body(state: &str, work_note: Option<&str>) -> (r: JsonValue)
    ensures
        match work_note {
            Some(n) => is_string_object(r, seq![("state"@, state@), ("work_notes"@, n@)]),
            None => is_string_object(r, seq![("state"@, state@)]),
        },
{
    let mut members = vec![(owned("state"), JsonValue::String(owned(state)))];
    match work_note {
        Some(n) => {
            members.push((owned("work_notes"), JsonValue::String(owned(n))));
        },
        None => {},
    }
    JsonValue::Object(members)
}

} // verus!
