//! Results of the Aggregate (Stats) API and their parsing.

use vstd::prelude::*;
use crate::error::Error;
use crate::model::json::{spec_member, JsonValue};
use crate::model::record::member_ref;
use crate::model::value::opt_str_view;
use crate::strmap::StrMap;
use crate::query::filter::{
    encode_query, spec_conditions_text, spec_conditions_valid, spec_encode_error, spec_orders_text,
    spec_orders_valid, Condition, Filter, Joiner, Operator, Order,
};
use crate::query::params::{opt_param, params_view, push_param};
use crate::text::{
    concat, join, owned, parse_uint, spec_join, spec_parse_uint, strings_view,
};

verus! {

/// Stats of a result or group: operation name (`count`, `avg.priority`, ...) to value text.
pub type StatsView = Option<Map<Seq<char>, Seq<char>>>;

/// Stats as plain values: present only when the response had a `stats` object.
pub open spec fn stats_view(s: Option<StrMap<String>>) -> StatsView {
    match s {
        Some(m) => Some(m.deep()),
        None => None,
    }
}

/// A single group of a grouped aggregate result.
#[derive(Debug)]
pub struct AggregateGroup {
    stats: Option<StrMap<String>>,
    group_fields: StrMap<String>,
}

/// Result of an aggregate query.
///
/// Non-grouped: `{"result": {"stats": {"count": "123", ...}}}`.
/// Grouped: `{"result": [{"stats": {...}, "groupby_fields": [...]}]}`.
#[derive(Debug)]
pub struct AggregateResult {
    stats: Option<StrMap<String>>,
    groups: Vec<AggregateGroup>,
}

impl View for AggregateGroup {
    type V = (StatsView, Map<Seq<char>, Seq<char>>);

    closed spec fn view(&self) -> (StatsView, Map<Seq<char>, Seq<char>>) {
        (stats_view(self.stats), self.group_fields.deep())
    }
}

impl View for AggregateResult {
    type V = (StatsView, Seq<(StatsView, Map<Seq<char>, Seq<char>>)>);

    closed spec fn view(&self) -> (StatsView, Seq<(StatsView, Map<Seq<char>, Seq<char>>)>) {
        (stats_view(self.stats), self.groups@.map_values(|g: AggregateGroup| g@))
    }
}

/// The value of one stat.
pub open spec fn spec_stat(stats: StatsView, stat: Seq<char>) -> Option<Seq<char>> {
    match stats {
        Some(m) => if m.contains_key(stat) {
            Some(m[stat])
        } else {
            None
        },
        None => None,
    }
}

/// The count stat as a number; 0 when absent or not a number.
pub open spec fn spec_count(stats: StatsView) -> u64 {
    match spec_stat(stats, "count"@) {
        Some(c) => match spec_parse_uint(c, 0xffff_ffff_ffff_ffff) {
            Some(n) => n as u64,
            None => 0,
        },
        None => 0,
    }
}

fn stat_of<'a>(stats: &'a Option<StrMap<String>>, stat: &str) -> (r: Option<&'a str>)
    ensures
        opt_str_view(r) == spec_stat(stats_view(*stats), stat@),
{
    match stats {
        Some(m) => match m.get(stat) {
            Some(v) => Some(v.as_str()),
            None => None,
        },
        None => None,
    }
}

fn count_of(stats: &Option<StrMap<String>>) -> (r: u64)
    ensures
        r == spec_count(stats_view(*stats)),
{
    match stat_of(stats, "count") {
        Some(c) => match parse_uint(c, 0xffff_ffff_ffff_ffff) {
            Some(n) => n,
            None => 0,
        },
        None => 0,
    }
}

impl AggregateResult {
    /// The count of a non-grouped result; 0 when absent or not a number.
    pub fn count(&self) -> (r: u64)
        ensures
            r == spec_count(self@.0),
    {
        count_of(&self.stats)
    }

    /// A stat by operation name (`count`, `avg.priority`, ...).
    pub fn stat_value(&self, stat: &str) -> (r: Option<&str>)
        ensures
            opt_str_view(r) == spec_stat(self@.0, stat@),
    {
        stat_of(&self.stats, stat)
    }

    /// The minimum of a field (non-grouped).
    pub fn min_val(&self, field: &str) -> (r: Option<&str>)
        ensures
            opt_str_view(r) == spec_stat(self@.0, "min."@ + field@),
    {
        let key = concat("min.", field);
        stat_of(&self.stats, key.as_str())
    }

    /// The maximum of a field (non-grouped).
    pub fn max_val(&self, field: &str) -> (r: Option<&str>)
        ensures
            opt_str_view(r) == spec_stat(self@.0, "max."@ + field@),
    {
        let key = concat("max.", field);
        stat_of(&self.stats, key.as_str())
    }

    /// Whether this is a grouped result.
    pub fn is_grouped(&self) -> (r: bool)
        ensures
            r == (self@.1.len() > 0),
    {
        self.groups.len() > 0
    }

    /// The groups of a grouped result.
    pub fn groups(&self) -> (r: &[AggregateGroup])
        ensures
            r@.map_values(|g: AggregateGroup| g@) == self@.1,
    {
        self.groups.as_slice()
    }

    /// Number of groups.
    pub fn group_count(&self) -> (r: usize)
        ensures
            r == self@.1.len(),
    {
        self.groups.len()
    }
}

impl AggregateGroup {
    /// The count of this group; 0 when absent or not a number.
    pub fn count(&self) -> (r: u64)
        ensures
            r == spec_count(self@.0),
    {
        count_of(&self.stats)
    }

    /// A stat of this group.
    pub fn stat_value(&self, stat: &str) -> (r: Option<&str>)
        ensures
            opt_str_view(r) == spec_stat(self@.0, stat@),
    {
        stat_of(&self.stats, stat)
    }

    /// The value of a group-by field; empty when the field is not grouped on.
    pub fn field_value(&self, field: &str) -> (r: &str)
        ensures
            r@ == (if self@.1.contains_key(field@) {
                self@.1[field@]
            } else {
                Seq::<char>::empty()
            }),
    {
        match self.group_fields.get(field) {
            Some(v) => v.as_str(),
            None => {
                proof {
                    reveal_strlit("");
                }
                ""
            },
        }
    }

    /// All group-by field values.
    pub fn field_values(&self) -> (r: &StrMap<String>)
        ensures
            r.deep() == self@.1,
    {
        &self.group_fields
    }
}

/// An aggregate query as plain values.
#[verifier::ext_equal]
pub struct AggregateApiView {
    pub table: Seq<char>,
    pub conditions: Seq<Condition>,
    pub order_by: Seq<(String, Order)>,
    pub do_count: bool,
    pub avg_fields: Seq<Seq<char>>,
    pub sum_fields: Seq<Seq<char>>,
    pub min_fields: Seq<Seq<char>>,
    pub max_fields: Seq<Seq<char>>,
    pub group_by_fields: Seq<Seq<char>>,
    pub having_count: Option<Seq<char>>,
    pub display_value: bool,
}

/// Builder for Aggregate (Stats) API queries on one table.
#[derive(Debug)]
pub struct AggregateApi {
    table: String,
    conditions: Vec<Condition>,
    order_by: Vec<(String, Order)>,
    do_count: bool,
    avg_fields: Vec<String>,
    sum_fields: Vec<String>,
    min_fields: Vec<String>,
    max_fields: Vec<String>,
    group_by_fields: Vec<String>,
    having_count: Option<String>,
    display_value: bool,
}

impl View for AggregateApi {
    type V = AggregateApiView;

    closed spec fn view(&self) -> AggregateApiView {
        AggregateApiView {
            table: self.table@,
            conditions: self.conditions@,
            order_by: self.order_by@,
            do_count: self.do_count,
            avg_fields: strings_view(self.avg_fields@),
            sum_fields: strings_view(self.sum_fields@),
            min_fields: strings_view(self.min_fields@),
            max_fields: strings_view(self.max_fields@),
            group_by_fields: strings_view(self.group_by_fields@),
            having_count: crate::model::value::opt_view(self.having_count),
            display_value: self.display_value,
        }
    }
}

/// The encoded query of an aggregate query.
pub open spec fn spec_aggregate_query(v: AggregateApiView) -> Seq<char> {
    spec_conditions_text(v.conditions) + spec_orders_text(v.order_by)
}

/// Whether every field name of the conditions and the ordering is valid.
pub open spec fn spec_aggregate_query_ok(v: AggregateApiView) -> bool {
    spec_conditions_valid(v.conditions) && spec_orders_valid(v.order_by)
}

/// A list of fields as one parameter, present when the list is not empty.
pub open spec fn list_param(name: Seq<char>, fields: Seq<Seq<char>>) -> Seq<(Seq<char>, Seq<char>)> {
    opt_param(fields.len() > 0, name, spec_join(fields, ","@))
}

/// The parameters of an aggregate query: the encoded query when not empty,
/// the count, the average, sum, minimum and maximum fields, the group-by
/// fields, the having condition and the display mode, in that order.
pub open spec fn spec_aggregate_params(v: AggregateApiView) -> Seq<(Seq<char>, Seq<char>)> {
    opt_param(spec_aggregate_query(v).len() > 0, "sysparm_query"@, spec_aggregate_query(v))
        + opt_param(v.do_count, "sysparm_count"@, "true"@)
        + list_param("sysparm_avg_fields"@, v.avg_fields)
        + list_param("sysparm_sum_fields"@, v.sum_fields)
        + list_param("sysparm_min_fields"@, v.min_fields)
        + list_param("sysparm_max_fields"@, v.max_fields)
        + list_param("sysparm_group_by"@, v.group_by_fields)
        + opt_param(v.having_count.is_some(), "sysparm_having"@, v.having_count.unwrap_or(Seq::empty()))
        + opt_param(v.display_value, "sysparm_display_value"@, "true"@)
}

fn push_list_param(params: &mut Vec<(String, String)>, name: &str, fields: &Vec<String>)
    ensures
        params_view(final(params)@) == params_view(old(params)@) + list_param(name@, strings_view(fields@)),
{
    if fields.len() > 0 {
        push_param(params, name, join(fields.as_slice(), ","));
    }
    assert(params_view(params@) =~= params_view(old(params)@) + list_param(name@, strings_view(fields@)));
}

fn push_string(v: &mut Vec<String>, s: &str)
    ensures
        strings_view(final(v)@) == strings_view(old(v)@).push(s@),
{
    v.push(owned(s));
    assert(strings_view(v@) =~= strings_view(old(v)@).push(s@));
}

impl AggregateApi {
    /// An aggregate query on `table` asking for nothing yet.
    pub fn new(table: &str) -> (r: Self)
        ensures
            r@ == (AggregateApiView {
                table: table@,
                conditions: Seq::empty(),
                order_by: Seq::empty(),
                do_count: false,
                avg_fields: Seq::empty(),
                sum_fields: Seq::empty(),
                min_fields: Seq::empty(),
                max_fields: Seq::empty(),
                group_by_fields: Seq::empty(),
                having_count: None,
                display_value: false,
            }),
    {
        let r = AggregateApi {
            table: owned(table),
            conditions: Vec::new(),
            order_by: Vec::new(),
            do_count: false,
            avg_fields: Vec::new(),
            sum_fields: Vec::new(),
            min_fields: Vec::new(),
            max_fields: Vec::new(),
            group_by_fields: Vec::new(),
            having_count: None,
            display_value: false,
        };
        assert(r@ =~= (AggregateApiView {
            table: table@,
            conditions: Seq::empty(),
            order_by: Seq::empty(),
            do_count: false,
            avg_fields: Seq::empty(),
            sum_fields: Seq::empty(),
            min_fields: Seq::empty(),
            max_fields: Seq::empty(),
            group_by_fields: Seq::empty(),
            having_count: None,
            display_value: false,
        }));
        r
    }

    /// Include a count.
    pub fn count(self) -> (r: Self)
        ensures
            r@ == (AggregateApiView { do_count: true, ..self@ }),
    {
        let mut q = self;
        q.do_count = true;
        q
    }

    /// The average of a field.
    pub fn avg(self, field: &str) -> (r: Self)
        ensures
            r@ == (AggregateApiView { avg_fields: self@.avg_fields.push(field@), ..self@ }),
    {
        let mut q = self;
        push_string(&mut q.avg_fields, field);
        q
    }

    /// The sum of a field.
    pub fn sum(self, field: &str) -> (r: Self)
        ensures
            r@ == (AggregateApiView { sum_fields: self@.sum_fields.push(field@), ..self@ }),
    {
        let mut q = self;
        push_string(&mut q.sum_fields, field);
        q
    }

    /// The minimum of a field.
    pub fn min(self, field: &str) -> (r: Self)
        ensures
            r@ == (AggregateApiView { min_fields: self@.min_fields.push(field@), ..self@ }),
    {
        let mut q = self;
        push_string(&mut q.min_fields, field);
        q
    }

    /// The maximum of a field.
    pub fn max(self, field: &str) -> (r: Self)
        ensures
            r@ == (AggregateApiView { max_fields: self@.max_fields.push(field@), ..self@ }),
    {
        let mut q = self;
        push_string(&mut q.max_fields, field);
        q
    }

    /// Group the results by a field.
    pub fn group_by(self, field: &str) -> (r: Self)
        ensures
            r@ == (AggregateApiView { group_by_fields: self@.group_by_fields.push(field@), ..self@ }),
    {
        let mut q = self;
        push_string(&mut q.group_by_fields, field);
        q
    }

    /// Keep only the groups whose count meets a condition, such as `">10"`.
    pub fn having_count(self, condition: &str) -> (r: Self)
        ensures
            r@ == (AggregateApiView { having_count: Some(condition@), ..self@ }),
    {
        let mut q = self;
        q.having_count = Some(owned(condition));
        q
    }

    /// Whether group-by fields are given by their display values.
    pub fn display_value(self, enabled: bool) -> (r: Self)
        ensures
            r@ == (AggregateApiView { display_value: enabled, ..self@ }),
    {
        let mut q = self;
        q.display_value = enabled;
        q
    }

    /// Add a condition joined with AND.
    pub fn filter(self, field: &str, op: Operator, value: &str) -> (r: Self)
        ensures
            crate::query::builder::appended_condition(self@.conditions, r@.conditions, Joiner::And, field@, op, value@),
            r@ == (AggregateApiView { conditions: r@.conditions, ..self@ }),
    {
        let mut q = self;
        let ghost before = q.conditions@;
        q.conditions.push(
            Condition {
                joiner: Joiner::And,
                filter: Filter { field: owned(field), operator: op, value: owned(value) },
            },
        );
        assert(q.conditions@.take(before.len() as int) =~= before);
        q
    }

    /// The field equals the value.
    pub fn equals(self, field: &str, value: &str) -> (r: Self)
        ensures
            crate::query::builder::appended_condition(
                self@.conditions,
                r@.conditions,
                Joiner::And,
                field@,
                Operator::Equals,
                value@,
            ),
            r@ == (AggregateApiView { conditions: r@.conditions, ..self@ }),
    {
        self.filter(field, Operator::Equals, value)
    }

    /// Add an order-by clause for the groups.
    pub fn order_by(self, field: &str, order: Order) -> (r: Self)
        ensures
            crate::query::builder::appended_order(self@.order_by, r@.order_by, field@, order),
            r@ == (AggregateApiView { order_by: r@.order_by, ..self@ }),
    {
        let mut q = self;
        let ghost before = q.order_by@;
        q.order_by.push((owned(field), order));
        assert(q.order_by@.take(before.len() as int) =~= before);
        q
    }

    /// The path of the query: `/api/now/stats/{table}`.
    pub fn path(&self) -> (r: String)
        ensures
            r@ == "/api/now/stats/"@ + self@.table,
    {
        concat("/api/now/stats/", self.table.as_str())
    }

    /// The parameters of the query; fails, as the encoding does, on a field
    /// name that could break the encoded query.
    pub fn build_params(&self) -> (r: Result<Vec<(String, String)>, Error>)
        ensures
            r.is_ok() <==> spec_aggregate_query_ok(self@),
            match r {
                Ok(p) => params_view(p@) == spec_aggregate_params(self@),
                Err(e) => spec_encode_error(self@.conditions, self@.order_by, e),
            },
    {
        let mut params: Vec<(String, String)> = Vec::new();
        let query = encode_query(self.conditions.as_slice(), self.order_by.as_slice())?;
        if !query.as_str().is_empty() {
            push_param(&mut params, "sysparm_query", query);
        }
        if self.do_count {
            push_param(&mut params, "sysparm_count", owned("true"));
        }
        let ghost mid = params_view(params@);
        push_list_param(&mut params, "sysparm_avg_fields", &self.avg_fields);
        push_list_param(&mut params, "sysparm_sum_fields", &self.sum_fields);
        push_list_param(&mut params, "sysparm_min_fields", &self.min_fields);
        push_list_param(&mut params, "sysparm_max_fields", &self.max_fields);
        push_list_param(&mut params, "sysparm_group_by", &self.group_by_fields);
        match &self.having_count {
            Some(h) => push_param(&mut params, "sysparm_having", h.clone()),
            None => {},
        }
        if self.display_value {
            push_param(&mut params, "sysparm_display_value", owned("true"));
        }
        assert(params_view(params@) =~= spec_aggregate_params(self@));
        Ok(params)
    }
}

/// Stat members as text; a member that is not a string counts as empty.
pub open spec fn spec_stats_of(m: Seq<(String, JsonValue)>) -> Map<Seq<char>, Seq<char>>
    decreases m.len(),
{
    if m.len() == 0 {
        Map::empty()
    } else {
        spec_stats_of(m.drop_last()).insert(
            m.last().0@,
            match m.last().1 {
                JsonValue::String(s) => s@,
                _ => Seq::empty(),
            },
        )
    }
}

/// The `stats` object of a response item.
pub open spec fn spec_stats(v: JsonValue) -> StatsView {
    match v.spec_get("stats"@) {
        Some(JsonValue::Object(m)) => Some(spec_stats_of(m@)),
        _ => None,
    }
}

/// The group-by entries of a grouped item: each with a string `field` and a
/// string `value`.
pub open spec fn spec_groupby_of(items: Seq<JsonValue>) -> Map<Seq<char>, Seq<char>>
    decreases items.len(),
{
    if items.len() == 0 {
        Map::empty()
    } else {
        let rest = spec_groupby_of(items.drop_last());
        let it = items.last();
        match (it.spec_get("field"@), it.spec_get("value"@)) {
            (Some(JsonValue::String(f)), Some(JsonValue::String(v))) => rest.insert(f@, v@),
            _ => rest,
        }
    }
}

/// The `groupby_fields` array of a grouped item.
pub open spec fn spec_groupby(v: JsonValue) -> Map<Seq<char>, Seq<char>> {
    match v.spec_get("groupby_fields"@) {
        Some(JsonValue::Array(a)) => spec_groupby_of(a@),
        _ => Map::empty(),
    }
}

fn parse_stats_object(value: &JsonValue) -> (r: Option<StrMap<String>>)
    ensures
        stats_view(r) == spec_stats(*value),
{
    match value.get("stats") {
        Some(JsonValue::Object(m)) => {
            let mut out: StrMap<String> = StrMap::new();
            let n = m.len();
            let mut i: usize = 0;
            assert(m@.take(0) =~= Seq::<(String, JsonValue)>::empty());
            assert(out.deep() =~= Map::<Seq<char>, Seq<char>>::empty());
            while i < n
                invariant
                    0 <= i <= n == m@.len(),
                    out.deep() == spec_stats_of(m@.take(i as int)),
                decreases n - i,
            {
                assert(m@.take(i + 1).drop_last() =~= m@.take(i as int));
                assert(m@.take(i + 1).last() == m@[i as int]);
                let v = match &m[i].1 {
                    JsonValue::String(s) => s.clone(),
                    _ => String::new(),
                };
                let ghost prev = out.deep();
                let ghost vv = v@;
                out.insert(m[i].0.clone(), v);
                assert(out.deep() =~= prev.insert(m@[i as int].0@, vv));
                i = i + 1;
            }
            assert(m@.take(n as int) =~= m@);
            Some(out)
        },
        _ => None,
    }
}

fn parse_groupby_fields(value: &JsonValue) -> (r: StrMap<String>)
    ensures
        r.deep() == spec_groupby(*value),
{
    let mut out: StrMap<String> = StrMap::new();
    assert(out.deep() =~= Map::<Seq<char>, Seq<char>>::empty());
    match value.get("groupby_fields") {
        Some(JsonValue::Array(a)) => {
            let n = a.len();
            let mut i: usize = 0;
            assert(a@.take(0) =~= Seq::<JsonValue>::empty());
            while i < n
                invariant
                    0 <= i <= n == a@.len(),
                    out.deep() == spec_groupby_of(a@.take(i as int)),
                decreases n - i,
            {
                assert(a@.take(i + 1).drop_last() =~= a@.take(i as int));
                assert(a@.take(i + 1).last() == a@[i as int]);
                match (a[i].get("field"), a[i].get("value")) {
                    (Some(JsonValue::String(f)), Some(JsonValue::String(v))) => {
                        let ghost prev = out.deep();
                        out.insert(f.clone(), v.clone());
                        assert(out.deep() =~= prev.insert(f@, v@));
                    },
                    _ => {},
                }
                i = i + 1;
            }
            assert(a@.take(n as int) =~= a@);
            out
        },
        _ => out,
    }
}

/// Parse the `result` of a stats response.
///
/// An array is a grouped result, one group per item; an object is a
/// non-grouped result; anything else is an API error.
pub fn parse_aggregate_result(result: &JsonValue) -> (r: Result<AggregateResult, Error>)
    ensures
        match *result {
            JsonValue::Array(items) => r matches Ok(a) && a@.0.is_none() && a@.1.len() == items@.len()
                && forall|i: int| 0 <= i < items@.len() ==> #[trigger] a@.1[i] == (spec_stats(items@[i]), spec_groupby(items@[i])),
            JsonValue::Object(_) => r matches Ok(a) && a@.0 == spec_stats(*result) && a@.1.len() == 0,
            _ => r matches Err(Error::Api { status, message, detail }) && status == 200 && message@
                == "unexpected aggregate response format"@ && detail.is_none(),
        },
{
    match result {
        JsonValue::Array(items) => {
            let mut groups: Vec<AggregateGroup> = Vec::new();
            let n = items.len();
            let mut i: usize = 0;
            while i < n
                invariant
                    0 <= i <= n == items@.len(),
                    groups@.len() == i,
                    forall|j: int| 0 <= j < i ==> #[trigger] groups@[j]@ == (spec_stats(items@[j]), spec_groupby(items@[j])),
                decreases n - i,
            {
                let stats = parse_stats_object(&items[i]);
                let group_fields = parse_groupby_fields(&items[i]);
                let g = AggregateGroup { stats, group_fields };
                groups.push(g);
                i = i + 1;
            }
            Ok(AggregateResult { stats: None, groups })
        },
        JsonValue::Object(_) => {
            let stats = parse_stats_object(result);
            Ok(AggregateResult { stats, groups: Vec::new() })
        },
        _ => Err(Error::Api {
            status: 200,
            message: owned("unexpected aggregate response format"),
            detail: None,
        }),
    }
}

}
