//! Table API queries: the builder that collects conditions and options, the
//! parameters and paths of its requests, and the reading of their answers.

use vstd::prelude::*;
use crate::error::Error;
use crate::model::json::JsonValue;
use crate::model::record::{spec_fields_of, spec_record_sys_id, Record};
use crate::model::value::{spec_display_param, DisplayValue};
use crate::query::batch::{record_from, records_from_result, spec_result_objects};
use crate::query::filter::{
    encode_query, spec_conditions_text, spec_conditions_valid, spec_encode_error, spec_orders_text,
    spec_orders_valid, Condition, Filter, Joiner, Operator, Order,
};
use crate::query::paginator::{Paginator, PaginatorView};
use crate::query::params::{opt_param, params_view, push_param};
use crate::query::strategy::FetchStrategy;
use crate::schema::definition::{RelationshipDef, RelationshipView};
use crate::schema::registry::{spec_chain_relationship, SchemaRegistry};
use crate::strmap::Duplicate;
use crate::text::{
    as_strs, concat, decimal_string, join, join_strs, owned, owned_all, parse_uint, push_str, spec_decimal,
    spec_join, spec_parse_uint, strings_view, strs_view,
};

verus! {

/// A table query as plain values.
#[verifier::ext_equal]
pub struct TableApiView {
    pub table: Seq<char>,
    pub conditions: Seq<Condition>,
    pub fields: Option<Seq<Seq<char>>>,
    pub related: Seq<Seq<char>>,
    pub display_value: DisplayValue,
    pub limit: Option<u32>,
    pub offset: Option<u32>,
    pub order_by: Seq<(String, Order)>,
    pub strategy: FetchStrategy,
    pub exclude_reference_link: bool,
    pub no_count: bool,
}

/// Builder for Table API queries on one table.
#[derive(Debug)]
pub struct TableApi {
    table: String,
    conditions: Vec<Condition>,
    fields: Option<Vec<String>>,
    related: Vec<String>,
    display_value: DisplayValue,
    limit: Option<u32>,
    offset: Option<u32>,
    order_by: Vec<(String, Order)>,
    strategy: FetchStrategy,
    exclude_reference_link: bool,
    no_count: bool,
}

/// The characters of an optional list of strings.
pub open spec fn opt_strings_view(o: Option<Vec<String>>) -> Option<Seq<Seq<char>>> {
    match o {
        Some(v) => Some(strings_view(v@)),
        None => None,
    }
}

impl View for TableApi {
    type V = TableApiView;

    closed spec fn view(&self) -> TableApiView {
        TableApiView {
            table: self.table@,
            conditions: self.conditions@,
            fields: opt_strings_view(self.fields),
            related: strings_view(self.related@),
            display_value: self.display_value,
            limit: self.limit,
            offset: self.offset,
            order_by: self.order_by@,
            strategy: self.strategy,
            exclude_reference_link: self.exclude_reference_link,
            no_count: self.no_count,
        }
    }
}

/// `after` is `before` with one condition added at the end.
pub open spec fn appended_condition(
    before: Seq<Condition>,
    after: Seq<Condition>,
    joiner: Joiner,
    field: Seq<char>,
    op: Operator,
    value: Seq<char>,
) -> bool {
    &&& after.len() == before.len() + 1
    &&& after.take(before.len() as int) == before
    &&& after.last().joiner == joiner
    &&& after.last().filter.field@ == field
    &&& after.last().filter.operator == op
    &&& after.last().filter.value@ == value
}

/// `after` is `before` with one order-by clause added at the end.
pub open spec fn appended_order(before: Seq<(String, Order)>, after: Seq<(String, Order)>, field: Seq<char>, order: Order) -> bool {
    &&& after.len() == before.len() + 1
    &&& after.take(before.len() as int) == before
    &&& after.last().0@ == field
    &&& after.last().1 == order
}

/// The encoded query of a table query: its conditions, then its ordering.
pub open spec fn spec_query_text(v: TableApiView) -> Seq<char> {
    spec_conditions_text(v.conditions) + spec_orders_text(v.order_by)
}

/// Whether every field name of the conditions and the ordering is valid.
pub open spec fn spec_query_ok(v: TableApiView) -> bool {
    spec_conditions_valid(v.conditions) && spec_orders_valid(v.order_by)
}

/// The selected fields joined with commas.
pub open spec fn spec_fields_text(f: Option<Seq<Seq<char>>>) -> Seq<char> {
    match f {
        Some(fs) => spec_join(fs, ","@),
        None => Seq::empty(),
    }
}

/// The decimal text of an optional number; empty when absent.
pub open spec fn opt_decimal(n: Option<u32>) -> Seq<char> {
    match n {
        Some(x) => spec_decimal(x as nat),
        None => Seq::empty(),
    }
}

/// The parameters of a list query: the encoded query when not empty, the
/// fields, the display mode, limit, offset, the exclusion of reference links
/// and the suppression of the total count, in that order.
pub open spec fn spec_table_params(v: TableApiView) -> Seq<(Seq<char>, Seq<char>)> {
    opt_param(spec_query_text(v).len() > 0, "sysparm_query"@, spec_query_text(v))
        + opt_param(v.fields.is_some(), "sysparm_fields"@, spec_fields_text(v.fields))
        + seq![("sysparm_display_value"@, spec_display_param(v.display_value))]
        + opt_param(v.limit.is_some(), "sysparm_limit"@, opt_decimal(v.limit))
        + opt_param(v.offset.is_some(), "sysparm_offset"@, opt_decimal(v.offset))
        + opt_param(v.exclude_reference_link, "sysparm_exclude_reference_link"@, "true"@)
        + opt_param(v.no_count, "sysparm_no_count"@, "true"@)
}

/// The parameters every page of a query carries: the query's own, without
/// its limit and offset, which each page sets.
pub open spec fn spec_page_base_params(v: TableApiView) -> Seq<(Seq<char>, Seq<char>)> {
    spec_table_params(TableApiView { limit: None, offset: None, ..v })
}

/// The paginator of a query before its first page.
pub open spec fn spec_paginator_of(v: TableApiView) -> PaginatorView {
    PaginatorView {
        path: "/api/now/table/"@ + v.table,
        base_params: spec_page_base_params(v),
        page_size: match v.limit {
            Some(n) => n,
            None => 100u32,
        },
        current_offset: match v.offset {
            Some(n) => n,
            None => 0u32,
        },
        total_count: None,
        display_value: v.display_value,
        table: v.table,
        related: v.related,
        strategy: v.strategy,
        done: false,
    }
}

/// The parameters of a single-record read or update: fields, display mode,
/// exclusion of reference links.
pub open spec fn spec_get_params(v: TableApiView) -> Seq<(Seq<char>, Seq<char>)> {
    opt_param(v.fields.is_some(), "sysparm_fields"@, spec_fields_text(v.fields))
        + seq![("sysparm_display_value"@, spec_display_param(v.display_value))]
        + opt_param(v.exclude_reference_link, "sysparm_exclude_reference_link"@, "true"@)
}

/// The parameters of a create: display mode, fields, exclusion of reference links.
pub open spec fn spec_create_params(v: TableApiView) -> Seq<(Seq<char>, Seq<char>)> {
    seq![("sysparm_display_value"@, spec_display_param(v.display_value))]
        + opt_param(v.fields.is_some(), "sysparm_fields"@, spec_fields_text(v.fields))
        + opt_param(v.exclude_reference_link, "sysparm_exclude_reference_link"@, "true"@)
}

/// Parameters written as `name=value` pairs joined with `&`.
pub open spec fn spec_query_string(ps: Seq<(Seq<char>, Seq<char>)>) -> Seq<char> {
    spec_join(ps.map_values(|p: (Seq<char>, Seq<char>)| p.0 + "="@ + p.1), "&"@)
}

/// The parameters of a count: the encoded query when not empty, then `sysparm_count=true`.
pub open spec fn spec_count_params(v: TableApiView) -> Seq<(Seq<char>, Seq<char>)> {
    opt_param(spec_query_text(v).len() > 0, "sysparm_query"@, spec_query_text(v))
        + seq![("sysparm_count"@, "true"@)]
}

/// The count in a stats answer, `result.stats.count` as a number; 0 when absent or not a number.
pub open spec fn spec_stats_count(result: JsonValue) -> u64 {
    match result.spec_get("stats"@) {
        Some(s) => match s.spec_get("count"@) {
            Some(JsonValue::String(c)) => match spec_parse_uint(c@, 0xffff_ffff_ffff_ffff) {
                Some(n) => n as u64,
                None => 0,
            },
            _ => 0,
        },
        None => 0,
    }
}

/// The record a single-record answer gives, or the API error `status` with
/// `message` when the answer is not an object.
pub open spec fn spec_single_record(
    table: Seq<char>,
    result: JsonValue,
    mode: DisplayValue,
    status: u16,
    message: Seq<char>,
    r: Result<Record, Error>,
) -> bool {
    match result {
        JsonValue::Object(m) => r matches Ok(rec) && record_from(rec, table, m@, mode),
        _ => r matches Err(Error::Api { status: s, message: msg, detail }) && s == status && msg@ == message
            && detail.is_none(),
    }
}

fn single_record(table: &str, result: JsonValue, mode: DisplayValue, status: u16, message: &str) -> (r: Result<Record, Error>)
    ensures
        spec_single_record(table@, result, mode, status, message@, r),
{
    match Record::from_json(table, result, mode) {
        Some(rec) => Ok(rec),
        None => Err(Error::Api { status, message: owned(message), detail: None }),
    }
}

/// The message of the error given when no schema is loaded.
pub open spec fn spec_no_schema_message() -> Seq<char> {
    "cannot fetch related records without a schema. Load a schema definition to enable relationship traversal."@
}

/// The message of the error for a relationship that a table does not have.
pub open spec fn spec_missing_relationship_message(rel: Seq<char>, table: Seq<char>) -> Seq<char> {
    "relationship '"@ + rel + "' not found on table '"@ + table + "'"@
}

/// The requested relationships that the schema knows for `table`, in request
/// order, with their definitions.
pub open spec fn spec_found_relationships(
    tables: Map<Seq<char>, crate::schema::definition::TableView>,
    fuel: nat,
    table: Seq<char>,
    names: Seq<Seq<char>>,
) -> Seq<(Seq<char>, RelationshipView)>
    decreases names.len(),
{
    if names.len() == 0 {
        Seq::empty()
    } else {
        let rest = spec_found_relationships(tables, fuel, table, names.drop_last());
        match spec_chain_relationship(tables, table, names.last(), fuel) {
            Some(d) => rest.push((names.last(), d)),
            None => rest,
        }
    }
}

/// The requested relationships that the schema does not know for `table`, in request order.
pub open spec fn spec_missing_relationships(
    tables: Map<Seq<char>, crate::schema::definition::TableView>,
    fuel: nat,
    table: Seq<char>,
    names: Seq<Seq<char>>,
) -> Seq<Seq<char>>
    decreases names.len(),
{
    if names.len() == 0 {
        Seq::empty()
    } else {
        let rest = spec_missing_relationships(tables, fuel, table, names.drop_last());
        match spec_chain_relationship(tables, table, names.last(), fuel) {
            Some(_) => rest,
            None => rest.push(names.last()),
        }
    }
}

/// The characters of a list of named relationship definitions.
pub open spec fn named_defs_view(v: Seq<(String, RelationshipDef)>) -> Seq<(Seq<char>, RelationshipView)> {
    v.map_values(|p: (String, RelationshipDef)| (p.0@, p.1@))
}

/// Whether `errs` are the schema errors for the missing relationships `names` of `table`.
pub open spec fn missing_errors(errs: Seq<Error>, names: Seq<Seq<char>>, table: Seq<char>) -> bool {
    &&& errs.len() == names.len()
    &&& forall|i: int| 0 <= i < errs.len() ==> (#[trigger] errs[i] matches Error::Schema(m) && m@
        == spec_missing_relationship_message(names[i], table))
}

/// What fetching related records has to do, before any request: the
/// relationships to fetch, and the errors already known.
///
/// Nothing is to be done when no relationship was asked for or there are no
/// records; without a schema there is one schema error and nothing to fetch;
/// otherwise the asked relationships that the schema knows for the table (its
/// ancestors included) are fetched, and each other one gives a schema error.
pub open spec fn spec_related_plan(
    schema: Option<&SchemaRegistry>,
    table: Seq<char>,
    related: Seq<Seq<char>>,
    record_count: usize,
    defs: Seq<(String, RelationshipDef)>,
    errs: Seq<Error>,
) -> bool {
    if related.len() == 0 || record_count == 0 {
        defs.len() == 0 && errs.len() == 0
    } else {
        match schema {
            None => defs.len() == 0 && errs.len() == 1 && (errs[0] matches Error::Schema(m) && m@
                == spec_no_schema_message()),
            Some(s) => {
                &&& named_defs_view(defs) == spec_found_relationships(s.spec_tables(), s.spec_fuel(), table, related)
                &&& missing_errors(errs, spec_missing_relationships(s.spec_tables(), s.spec_fuel(), table, related), table)
            },
        }
    }
}

/// The relationships to fetch for `related` on `table`, and the errors known
/// before any request.
pub fn plan_related(schema: Option<&SchemaRegistry>, table: &str, related: &[String], record_count: usize) -> (r: (
    Vec<(String, RelationshipDef)>,
    Vec<Error>,
))
    ensures
        spec_related_plan(schema, table@, strings_view(related@), record_count, r.0@, r.1@),
{
    let mut defs: Vec<(String, RelationshipDef)> = Vec::new();
    let mut errs: Vec<Error> = Vec::new();
    if related.len() == 0 || record_count == 0 {
        return (defs, errs);
    }
    match schema {
        None => {
            errs.push(Error::Schema(owned(
                "cannot fetch related records without a schema. Load a schema definition to enable relationship traversal.",
            )));
            (defs, errs)
        },
        Some(s) => {
            let ghost names = strings_view(related@);
            let n = related.len();
            let mut i: usize = 0;
            assert(names.take(0) =~= Seq::<Seq<char>>::empty());
            while i < n
                invariant
                    0 <= i <= n == related@.len(),
                    names == strings_view(related@),
                    named_defs_view(defs@) == spec_found_relationships(s.spec_tables(), s.spec_fuel(), table@, names.take(i as int)),
                    missing_errors(errs@, spec_missing_relationships(s.spec_tables(), s.spec_fuel(), table@, names.take(i as int)), table@),
                decreases n - i,
            {
                let name = related[i].as_str();
                assert(names.take(i + 1).drop_last() =~= names.take(i as int));
                assert(names.take(i + 1).last() == name@);
                let ghost prev_defs = defs@;
                let ghost prev_errs = errs@;
                match s.relationship(table, name) {
                    Some(d) => {
                        defs.push((owned(name), d.duplicate()));
                        assert(named_defs_view(defs@) =~= named_defs_view(prev_defs).push((name@, d@)));
                    },
                    None => {
                        let mut m = owned("relationship '");
                        push_str(&mut m, name);
                        push_str(&mut m, "' not found on table '");
                        push_str(&mut m, table);
                        push_str(&mut m, "'");
                        errs.push(Error::Schema(m));
                        assert forall|j: int| 0 <= j < errs@.len() implies (#[trigger] errs@[j] matches Error::Schema(mm) && mm@
                            == spec_missing_relationship_message(
                            spec_missing_relationships(s.spec_tables(), s.spec_fuel(), table@, names.take(i + 1))[j],
                            table@,
                        )) by {
                            if j < prev_errs.len() {
                                assert(errs@[j] == prev_errs[j]);
                            }
                        }
                    },
                }
                i = i + 1;
            }
            assert(names.take(n as int) =~= names);
            (defs, errs)
        },
    }
}

/// A query on `table` with no conditions: all fields, raw values, no limit,
/// reference links excluded, the total count asked for.
pub open spec fn spec_new_query(table: Seq<char>) -> TableApiView {
    TableApiView {
        table,
        conditions: Seq::empty(),
        fields: None,
        related: Seq::empty(),
        display_value: DisplayValue::Raw,
        limit: None,
        offset: None,
        order_by: Seq::empty(),
        strategy: FetchStrategy::Auto,
        exclude_reference_link: true,
        no_count: false,
    }
}

impl TableApi {
    /// A query on `table` with no conditions: all fields, raw values, no
    /// limit, reference links excluded, the total count asked for.
    pub fn new(table: &str) -> (r: Self)
        ensures
            r@ == spec_new_query(table@),
    {
        let r = TableApi {
            table: owned(table),
            conditions: Vec::new(),
            fields: None,
            related: Vec::new(),
            display_value: DisplayValue::Raw,
            limit: None,
            offset: None,
            order_by: Vec::new(),
            strategy: FetchStrategy::Auto,
            exclude_reference_link: true,
            no_count: false,
        };
        assert(r@ =~= spec_new_query(table@));
        r
    }

    fn push_condition(self, joiner: Joiner, field: &str, op: Operator, value: &str) -> (r: Self)
        ensures
            appended_condition(self@.conditions, r@.conditions, joiner, field@, op, value@),
            r@ == (TableApiView { conditions: r@.conditions, ..self@ }),
    {
        let mut query = self;
        let ghost before = query.conditions@;
        query.conditions.push(
            Condition { joiner, filter: Filter { field: owned(field), operator: op, value: owned(value) } },
        );
        assert(query.conditions@.take(before.len() as int) =~= before);
        query
    }

    /// Add a condition joined with AND.
    pub fn filter(self, field: &str, op: Operator, value: &str) -> (r: Self)
        ensures
            appended_condition(self@.conditions, r@.conditions, Joiner::And, field@, op, value@),
            r@ == (TableApiView { conditions: r@.conditions, ..self@ }),
    {
        self.push_condition(Joiner::And, field, op, value)
    }

    /// Add a condition joined with OR.
    pub fn or_filter(self, field: &str, op: Operator, value: &str) -> (r: Self)
        ensures
            appended_condition(self@.conditions, r@.conditions, Joiner::Or, field@, op, value@),
            r@ == (TableApiView { conditions: r@.conditions, ..self@ }),
    {
        self.push_condition(Joiner::Or, field, op, value)
    }

    /// The field equals the value.
    pub fn equals(self, field: &str, value: &str) -> (r: Self)
        ensures
            appended_condition(self@.conditions, r@.conditions, Joiner::And, field@, Operator::Equals, value@),
            r@ == (TableApiView { conditions: r@.conditions, ..self@ }),
    {
        self.filter(field, Operator::Equals, value)
    }

    /// The field does not equal the value.
    pub fn not_equals(self, field: &str, value: &str) -> (r: Self)
        ensures
            appended_condition(self@.conditions, r@.conditions, Joiner::And, field@, Operator::NotEquals, value@),
            r@ == (TableApiView { conditions: r@.conditions, ..self@ }),
    {
        self.filter(field, Operator::NotEquals, value)
    }

    /// The field contains the value.
    pub fn contains(self, field: &str, value: &str) -> (r: Self)
        ensures
            appended_condition(self@.conditions, r@.conditions, Joiner::And, field@, Operator::Contains, value@),
            r@ == (TableApiView { conditions: r@.conditions, ..self@ }),
    {
        self.filter(field, Operator::Contains, value)
    }

    /// The field starts with the value.
    pub fn starts_with(self, field: &str, value: &str) -> (r: Self)
        ensures
            appended_condition(self@.conditions, r@.conditions, Joiner::And, field@, Operator::StartsWith, value@),
            r@ == (TableApiView { conditions: r@.conditions, ..self@ }),
    {
        self.filter(field, Operator::StartsWith, value)
    }

    /// The field ends with the value.
    pub fn ends_with(self, field: &str, value: &str) -> (r: Self)
        ensures
            appended_condition(self@.conditions, r@.conditions, Joiner::And, field@, Operator::EndsWith, value@),
            r@ == (TableApiView { conditions: r@.conditions, ..self@ }),
    {
        self.filter(field, Operator::EndsWith, value)
    }

    /// The field is empty.
    pub fn is_empty_field(self, field: &str) -> (r: Self)
        ensures
            appended_condition(self@.conditions, r@.conditions, Joiner::And, field@, Operator::IsEmpty, Seq::empty()),
            r@ == (TableApiView { conditions: r@.conditions, ..self@ }),
    {
        let empty = "";
        proof {
            reveal_strlit("");
        }
        assert(empty@ =~= Seq::<char>::empty());
        self.filter(field, Operator::IsEmpty, empty)
    }

    /// The field is not empty.
    pub fn is_not_empty(self, field: &str) -> (r: Self)
        ensures
            appended_condition(self@.conditions, r@.conditions, Joiner::And, field@, Operator::IsNotEmpty, Seq::empty()),
            r@ == (TableApiView { conditions: r@.conditions, ..self@ }),
    {
        let empty = "";
        proof {
            reveal_strlit("");
        }
        assert(empty@ =~= Seq::<char>::empty());
        self.filter(field, Operator::IsNotEmpty, empty)
    }

    /// The field's value is one of the values.
    pub fn in_list(self, field: &str, values: &[&str]) -> (r: Self)
        ensures
            appended_condition(
                self@.conditions,
                r@.conditions,
                Joiner::And,
                field@,
                Operator::In,
                spec_join(strs_view(values@), ","@),
            ),
            r@ == (TableApiView { conditions: r@.conditions, ..self@ }),
    {
        let joined = join_strs(values, ",");
        self.filter(field, Operator::In, joined.as_str())
    }

    /// The field is greater than the value.
    pub fn greater_than(self, field: &str, value: &str) -> (r: Self)
        ensures
            appended_condition(self@.conditions, r@.conditions, Joiner::And, field@, Operator::GreaterThan, value@),
            r@ == (TableApiView { conditions: r@.conditions, ..self@ }),
    {
        self.filter(field, Operator::GreaterThan, value)
    }

    /// The field is less than the value.
    pub fn less_than(self, field: &str, value: &str) -> (r: Self)
        ensures
            appended_condition(self@.conditions, r@.conditions, Joiner::And, field@, Operator::LessThan, value@),
            r@ == (TableApiView { conditions: r@.conditions, ..self@ }),
    {
        self.filter(field, Operator::LessThan, value)
    }

    /// Return only these fields.
    pub fn fields(self, fields: &[&str]) -> (r: Self)
        ensures
            r@ == (TableApiView { fields: Some(strs_view(fields@)), ..self@ }),
    {
        let mut query = self;
        query.fields = Some(owned_all(fields));
        query
    }

    /// Also fetch the related records of these relationships.
    pub fn include_related(self, relations: &[&str]) -> (r: Self)
        ensures
            r@ == (TableApiView { related: self@.related + strs_view(relations@), ..self@ }),
    {
        let mut query = self;
        let ghost orig = query@;
        let ghost before = strings_view(query.related@);
        let n = relations.len();
        let mut i: usize = 0;
        while i < n
            invariant
                0 <= i <= n == relations@.len(),
                query@ == (TableApiView { related: query@.related, ..orig }),
                strings_view(query.related@) == before + strs_view(relations@).take(i as int),
            decreases n - i,
        {
            let ghost prev = query.related@;
            query.related.push(owned(relations[i]));
            assert(strings_view(query.related@) =~= strings_view(prev).push(relations@[i as int]@));
            i = i + 1;
            assert(strs_view(relations@).take(i as int) =~= strs_view(relations@).take(i - 1).push(relations@[i - 1]@));
        }
        assert(strs_view(relations@).take(n as int) =~= strs_view(relations@));
        assert(query@.related =~= orig.related + strs_view(relations@));
        query
    }

    /// Set the display mode.
    pub fn display_value(self, mode: DisplayValue) -> (r: Self)
        ensures
            r@ == (TableApiView { display_value: mode, ..self@ }),
    {
        let mut query = self;
        query.display_value = mode;
        query
    }

    /// Return at most `n` records.
    pub fn limit(self, n: u32) -> (r: Self)
        ensures
            r@ == (TableApiView { limit: Some(n), ..self@ }),
    {
        let mut query = self;
        query.limit = Some(n);
        query
    }

    /// Skip the first `n` records.
    pub fn offset(self, n: u32) -> (r: Self)
        ensures
            r@ == (TableApiView { offset: Some(n), ..self@ }),
    {
        let mut query = self;
        query.offset = Some(n);
        query
    }

    /// Add an order-by clause.
    pub fn order_by(self, field: &str, order: Order) -> (r: Self)
        ensures
            appended_order(self@.order_by, r@.order_by, field@, order),
            r@ == (TableApiView { order_by: r@.order_by, ..self@ }),
    {
        let mut query = self;
        let ghost before = query.order_by@;
        query.order_by.push((owned(field), order));
        assert(query.order_by@.take(before.len() as int) =~= before);
        query
    }

    /// Set the strategy for related records.
    pub fn strategy(self, strategy: FetchStrategy) -> (r: Self)
        ensures
            r@ == (TableApiView { strategy, ..self@ }),
    {
        let mut query = self;
        query.strategy = strategy;
        query
    }

    /// Whether reference links are left out of the answer.
    pub fn exclude_reference_link(self, exclude: bool) -> (r: Self)
        ensures
            r@ == (TableApiView { exclude_reference_link: exclude, ..self@ }),
    {
        let mut query = self;
        query.exclude_reference_link = exclude;
        query
    }

    /// Skip the total count, which is faster on large tables.
    pub fn no_count(self) -> (r: Self)
        ensures
            r@ == (TableApiView { no_count: true, ..self@ }),
    {
        let mut query = self;
        query.no_count = true;
        query
    }

    /// The display mode of this query.
    pub fn display_mode(&self) -> (r: DisplayValue)
        ensures
            r == self@.display_value,
    {
        self.display_value
    }

    /// The table of this query.
    pub fn table_name(&self) -> (r: &str)
        ensures
            r@ == self@.table,
    {
        self.table.as_str()
    }

    /// The path of list queries and creates: `/api/now/table/{table}`.
    pub fn list_path(&self) -> (r: String)
        ensures
            r@ == "/api/now/table/"@ + self@.table,
    {
        concat("/api/now/table/", self.table.as_str())
    }

    /// The path of one record: `/api/now/table/{table}/{sys_id}`.
    pub fn record_path(&self, sys_id: &str) -> (r: String)
        ensures
            r@ == "/api/now/table/"@ + self@.table + "/"@ + sys_id@,
    {
        let mut p = concat("/api/now/table/", self.table.as_str());
        push_str(&mut p, "/");
        push_str(&mut p, sys_id);
        p
    }

    /// The path of counts: `/api/now/stats/{table}`.
    pub fn stats_path(&self) -> (r: String)
        ensures
            r@ == "/api/now/stats/"@ + self@.table,
    {
        concat("/api/now/stats/", self.table.as_str())
    }

    fn push_fields_param(&self, params: &mut Vec<(String, String)>)
        ensures
            params_view(final(params)@) == params_view(old(params)@) + opt_param(
                self@.fields.is_some(),
                "sysparm_fields"@,
                spec_fields_text(self@.fields),
            ),
    {
        match &self.fields {
            Some(fs) => {
                push_param(params, "sysparm_fields", join(fs.as_slice(), ","));
            },
            None => {},
        }
        assert(params_view(params@) =~= params_view(old(params)@) + opt_param(
            self@.fields.is_some(),
            "sysparm_fields"@,
            spec_fields_text(self@.fields),
        ));
    }

    fn push_flag_param(params: &mut Vec<(String, String)>, present: bool, name: &str)
        ensures
            params_view(final(params)@) == params_view(old(params)@) + opt_param(present, name@, "true"@),
    {
        if present {
            push_param(params, name, owned("true"));
        }
        assert(params_view(params@) =~= params_view(old(params)@) + opt_param(present, name@, "true"@));
    }

    fn push_query_param(&self, params: &mut Vec<(String, String)>) -> (r: Result<(), Error>)
        ensures
            r.is_ok() <==> spec_query_ok(self@),
            match r {
                Ok(_) => params_view(final(params)@) == params_view(old(params)@) + opt_param(
                    spec_query_text(self@).len() > 0,
                    "sysparm_query"@,
                    spec_query_text(self@),
                ),
                Err(e) => spec_encode_error(self@.conditions, self@.order_by, e),
            },
    {
        let query = encode_query(self.conditions.as_slice(), self.order_by.as_slice())?;
        if !query.as_str().is_empty() {
            push_param(params, "sysparm_query", query);
        }
        assert(params_view(params@) =~= params_view(old(params)@) + opt_param(
            spec_query_text(self@).len() > 0,
            "sysparm_query"@,
            spec_query_text(self@),
        ));
        Ok(())
    }

    /// The parameters of a list query; fails, as the encoding does, on a field
    /// name that could break the encoded query.
    pub fn build_params(&self) -> (r: Result<Vec<(String, String)>, Error>)
        ensures
            r.is_ok() <==> spec_query_ok(self@),
            match r {
                Ok(p) => params_view(p@) == spec_table_params(self@),
                Err(e) => spec_encode_error(self@.conditions, self@.order_by, e),
            },
    {
        let mut params: Vec<(String, String)> = Vec::new();
        assert(params_view(params@) =~= Seq::<(Seq<char>, Seq<char>)>::empty());
        self.push_query_param(&mut params)?;
        self.push_fields_param(&mut params);
        push_param(&mut params, "sysparm_display_value", owned(self.display_value.as_param()));
        match self.limit {
            Some(n) => push_param(&mut params, "sysparm_limit", decimal_string(n as u64)),
            None => {},
        }
        match self.offset {
            Some(n) => push_param(&mut params, "sysparm_offset", decimal_string(n as u64)),
            None => {},
        }
        Self::push_flag_param(&mut params, self.exclude_reference_link, "sysparm_exclude_reference_link");
        Self::push_flag_param(&mut params, self.no_count, "sysparm_no_count");
        assert(params_view(params@) =~= spec_table_params(self@));
        Ok(params)
    }

    /// The paginator of this query. The query's limit is the page size (100
    /// when none is set) and its offset the first page's offset (0 when none is
    /// set); every page carries the query's other parameters.
    pub fn paginate(&self) -> (r: Result<Paginator, Error>)
        ensures
            r.is_ok() <==> spec_query_ok(self@),
            match r {
                Ok(p) => p@ == spec_paginator_of(self@),
                Err(e) => spec_encode_error(self@.conditions, self@.order_by, e),
            },
    {
        let mut params: Vec<(String, String)> = Vec::new();
        assert(params_view(params@) =~= Seq::<(Seq<char>, Seq<char>)>::empty());
        self.push_query_param(&mut params)?;
        self.push_fields_param(&mut params);
        push_param(&mut params, "sysparm_display_value", owned(self.display_value.as_param()));
        Self::push_flag_param(&mut params, self.exclude_reference_link, "sysparm_exclude_reference_link");
        Self::push_flag_param(&mut params, self.no_count, "sysparm_no_count");
        assert(params_view(params@) =~= spec_page_base_params(self@));
        let related = owned_all(as_strs(self.related.as_slice()).as_slice());
        let page_size: u32 = match self.limit {
            Some(n) => n,
            None => 100,
        };
        let start: u32 = match self.offset {
            Some(n) => n,
            None => 0,
        };
        Ok(Paginator::new(self.table.as_str(), params, page_size, start, self.display_value, related, self.strategy))
    }

    /// The parameters of a single-record read or update: fields, display
    /// mode, exclusion of reference links.
    pub fn get_params(&self) -> (r: Vec<(String, String)>)
        ensures
            params_view(r@) == spec_get_params(self@),
    {
        let mut params: Vec<(String, String)> = Vec::new();
        assert(params_view(params@) =~= Seq::<(Seq<char>, Seq<char>)>::empty());
        self.push_fields_param(&mut params);
        push_param(&mut params, "sysparm_display_value", owned(self.display_value.as_param()));
        Self::push_flag_param(&mut params, self.exclude_reference_link, "sysparm_exclude_reference_link");
        assert(params_view(params@) =~= spec_get_params(self@));
        params
    }

    /// The path of a create, with its parameters written into the path:
    /// `/api/now/table/{table}?name=value&...`.
    pub fn create_path(&self) -> (r: String)
        ensures
            r@ == "/api/now/table/"@ + self@.table + "?"@ + spec_query_string(spec_create_params(self@)),
    {
        let mut params: Vec<(String, String)> = Vec::new();
        push_param(&mut params, "sysparm_display_value", owned(self.display_value.as_param()));
        self.push_fields_param(&mut params);
        Self::push_flag_param(&mut params, self.exclude_reference_link, "sysparm_exclude_reference_link");
        assert(params_view(params@) =~= spec_create_params(self@));
        let mut pairs: Vec<String> = Vec::new();
        let n = params.len();
        let mut i: usize = 0;
        while i < n
            invariant
                0 <= i <= n == params@.len(),
                strings_view(pairs@) == params_view(params@).take(i as int).map_values(
                    |p: (Seq<char>, Seq<char>)| p.0 + "="@ + p.1,
                ),
            decreases n - i,
        {
            let mut kv = owned(params[i].0.as_str());
            push_str(&mut kv, "=");
            push_str(&mut kv, params[i].1.as_str());
            let ghost prev = pairs@;
            let ghost pv = params_view(params@);
            assert(kv@ == pv[i as int].0 + "="@ + pv[i as int].1);
            pairs.push(kv);
            assert(pv.take(i + 1) =~= pv.take(i as int).push(pv[i as int]));
            assert(strings_view(pairs@) =~= strings_view(prev).push(kv@));
            assert(pv.take(i + 1).map_values(|p: (Seq<char>, Seq<char>)| p.0 + "="@ + p.1) =~= pv.take(
                i as int,
            ).map_values(|p: (Seq<char>, Seq<char>)| p.0 + "="@ + p.1).push(kv@));
            i = i + 1;
        }
        assert(params_view(params@).take(n as int) =~= params_view(params@));
        let mut path = concat("/api/now/table/", self.table.as_str());
        push_str(&mut path, "?");
        let qs = join(pairs.as_slice(), "&");
        push_str(&mut path, qs.as_str());
        path
    }

    /// The parameters of a count: the encoded query, then `sysparm_count=true`.
    pub fn count_params(&self) -> (r: Result<Vec<(String, String)>, Error>)
        ensures
            r.is_ok() <==> spec_query_ok(self@),
            match r {
                Ok(p) => params_view(p@) == spec_count_params(self@),
                Err(e) => spec_encode_error(self@.conditions, self@.order_by, e),
            },
    {
        let mut params: Vec<(String, String)> = Vec::new();
        assert(params_view(params@) =~= Seq::<(Seq<char>, Seq<char>)>::empty());
        self.push_query_param(&mut params)?;
        push_param(&mut params, "sysparm_count", owned("true"));
        assert(params_view(params@) =~= spec_count_params(self@));
        Ok(params)
    }

    /// The records of a list answer, one per object of the `result` array.
    pub fn records_from_result(&self, result: JsonValue) -> (r: Vec<Record>)
        ensures
            r@.len() == spec_result_objects(result).len(),
            forall|i: int| 0 <= i < r@.len() ==> record_from(
                #[trigger] r@[i],
                self@.table,
                spec_result_objects(result)[i],
                self@.display_value,
            ),
    {
        records_from_result(self.table.as_str(), result, self.display_value)
    }

    /// The record of a single-record read.
    pub fn record_from_get(&self, result: JsonValue) -> (r: Result<Record, Error>)
        ensures
            spec_single_record(self@.table, result, self@.display_value, 200, "failed to parse record from response"@, r),
    {
        single_record(self.table.as_str(), result, self.display_value, 200, "failed to parse record from response")
    }

    /// The record of a create.
    pub fn record_from_create(&self, result: JsonValue) -> (r: Result<Record, Error>)
        ensures
            spec_single_record(
                self@.table,
                result,
                self@.display_value,
                201,
                "failed to parse created record from response"@,
                r,
            ),
    {
        single_record(
            self.table.as_str(),
            result,
            self.display_value,
            201,
            "failed to parse created record from response",
        )
    }

    /// The record of an update.
    pub fn record_from_update(&self, result: JsonValue) -> (r: Result<Record, Error>)
        ensures
            spec_single_record(
                self@.table,
                result,
                self@.display_value,
                200,
                "failed to parse updated record from response"@,
                r,
            ),
    {
        single_record(
            self.table.as_str(),
            result,
            self.display_value,
            200,
            "failed to parse updated record from response",
        )
    }

    /// The count of a stats answer.
    pub fn count_from_result(result: &JsonValue) -> (r: u64)
        ensures
            r == spec_stats_count(*result),
    {
        match result.get("stats") {
            Some(s) => match s.get("count") {
                Some(JsonValue::String(c)) => match parse_uint(c.as_str(), 0xffff_ffff_ffff_ffff) {
                    Some(n) => n,
                    None => 0,
                },
                _ => 0,
            },
            None => 0,
        }
    }

    /// The relationships to fetch for `record_count` records, and the errors
    /// known before any request.
    pub fn related_plan(&self, schema: Option<&SchemaRegistry>, record_count: usize) -> (r: (
        Vec<(String, RelationshipDef)>,
        Vec<Error>,
    ))
        ensures
            spec_related_plan(schema, self@.table, self@.related, record_count, r.0@, r.1@),
    {
        plan_related(schema, self.table.as_str(), self.related.as_slice(), record_count)
    }
}

} // verus!
