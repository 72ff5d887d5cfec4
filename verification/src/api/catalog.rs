//! Catalog variables of requested items (RITMs).
//!
//! The instance keeps the form fields of a catalog request in a chain of
//! tables: `sc_item_option_mtom` links a requested item to its options,
//! `sc_item_option` holds each option's label and value, and `item_option_new`
//! defines the variable, with the table that a reference or list-collector
//! variable points to. This module writes the queries of that chain and
//! assembles the variables from their answers; the caller sends the queries.

use vstd::prelude::*;
use crate::model::record::Record;
use crate::model::value::{opt_view, spec_field_str, spec_raw_str, DisplayValue};
use crate::query::builder::{appended_condition, spec_new_query, TableApi, TableApiView};
use crate::query::filter::{Joiner, Operator};
use crate::strmap::StrMap;
use crate::text::{
    as_strs, is_ascii_hexdigit, join, lemma_push_contains, owned, sorted_unique, spec_join, spec_parse_uint, spec_split,
    spec_strictly_sorted, spec_trim, split_char, str_chars, strings_view, strs_view, trim, parse_uint,
};

verus! {

/// A catalog variable as plain values: label, value, form order, referenced table.
pub type CatalogVariableView = (Seq<char>, Seq<char>, u32, Option<Seq<char>>);

/// A single catalog variable of a requested item.
#[derive(Debug, Clone)]
pub struct CatalogVariable {
    /// Human-readable variable label (e.g. `"Business justification"`).
    pub name: String,
    /// The value given (text, date, or sys_id for reference fields).
    pub value: String,
    /// Form display order.
    pub order: u32,
    /// For reference and list-collector variables, the table the value
    /// points to; the value then holds one or more comma-separated sys_ids.
    pub reference_table: Option<String>,
}

impl View for CatalogVariable {
    type V = CatalogVariableView;

    open spec fn view(&self) -> CatalogVariableView {
        (self.name@, self.value@, self.order, opt_view(self.reference_table))
    }
}

/// The views of a list of variables.
pub open spec fn vars_view(v: Seq<CatalogVariable>) -> Seq<CatalogVariableView> {
    v.map_values(|c: CatalogVariable| c@)
}

/// A ServiceNow sys_id: 32 hexadecimal digits.
pub open spec fn spec_is_sys_id(s: Seq<char>) -> bool {
    s.len() == 32 && forall|i: int| 0 <= i < s.len() ==> is_ascii_hexdigit(#[trigger] s[i])
}

/// Whether a string looks like a sys_id: 32 hexadecimal digits.
pub fn is_sys_id(s: &str) -> (r: bool)
    ensures
        r == spec_is_sys_id(s@),
{
    let v = str_chars(s);
    if v.len() != 32 {
        return false;
    }
    let mut i: usize = 0;
    while i < v.len()
        invariant
            0 <= i <= v@.len() == 32,
            v@ == s@,
            forall|j: int| 0 <= j < i ==> is_ascii_hexdigit(#[trigger] v@[j]),
        decreases v@.len() - i,
    {
        let c = v[i];
        let hex = ('0' <= c && c <= '9') || ('a' <= c && c <= 'f') || ('A' <= c && c <= 'F');
        if !hex {
            return false;
        }
        i = i + 1;
    }
    true
}

/// The string form of a record's field, when the record has it.
pub open spec fn spec_rec_str(rec: Record, field: Seq<char>) -> Option<Seq<char>> {
    if rec.spec_fields().contains_key(field) {
        spec_field_str(rec.spec_fields()[field])
    } else {
        None
    }
}

/// The raw string value of a record's field, when the record has it.
pub open spec fn spec_rec_raw(rec: Record, field: Seq<char>) -> Option<Seq<char>> {
    if rec.spec_fields().contains_key(field) {
        spec_raw_str(rec.spec_fields()[field].0)
    } else {
        None
    }
}

/// The string forms of a field over records that have one, in order.
pub open spec fn spec_field_strs(rs: Seq<Record>, field: Seq<char>) -> Seq<Seq<char>>
    decreases rs.len(),
{
    if rs.len() == 0 {
        Seq::empty()
    } else {
        let rest = spec_field_strs(rs.drop_last(), field);
        match spec_rec_str(rs.last(), field) {
            Some(s) => rest.push(s),
            None => rest,
        }
    }
}

/// The non-empty raw string values of a field over records, in order.
pub open spec fn spec_nonempty_raws(rs: Seq<Record>, field: Seq<char>) -> Seq<Seq<char>>
    decreases rs.len(),
{
    if rs.len() == 0 {
        Seq::empty()
    } else {
        let rest = spec_nonempty_raws(rs.drop_last(), field);
        match spec_rec_raw(rs.last(), field) {
            Some(s) => if s.len() > 0 {
                rest.push(s)
            } else {
                rest
            },
            None => rest,
        }
    }
}

/// Whether `v` is the query of `table` with one condition `field IN ids`, the
/// given fields and display mode.
pub open spec fn is_in_query(
    v: TableApiView,
    table: Seq<char>,
    field: Seq<char>,
    ids: Seq<Seq<char>>,
    fields: Seq<Seq<char>>,
    mode: DisplayValue,
) -> bool {
    &&& appended_condition(Seq::empty(), v.conditions, Joiner::And, field, Operator::In, spec_join(ids, ","@))
    &&& v == (TableApiView { conditions: v.conditions, fields: Some(fields), display_value: mode, ..spec_new_query(table) })
}

fn in_query(table: &str, ids: &[String], fields: Vec<&str>, mode: DisplayValue) -> (r: TableApi)
    ensures
        is_in_query(r@, table@, "sys_id"@, strings_view(ids@), strs_view(fields@), mode),
{
    let idv = as_strs(ids);
    let q = TableApi::new(table).in_list("sys_id", idv.as_slice());
    let q = q.fields(fields.as_slice());
    q.display_value(mode)
}

/// The first query: the links of a requested item to its options.
pub fn catalog_links_query(ritm_sys_id: &str) -> (r: TableApi)
    ensures
        appended_condition(Seq::empty(), r@.conditions, Joiner::And, "request_item"@, Operator::Equals, ritm_sys_id@),
        r@ == (TableApiView { conditions: r@.conditions, ..spec_new_query("sc_item_option_mtom"@) }),
{
    TableApi::new("sc_item_option_mtom").equals("request_item", ritm_sys_id)
}

/// The option sys_ids of the link records: their `sc_item_option` values.
pub fn option_ids(links: &[Record]) -> (r: Vec<String>)
    ensures
        strings_view(r@) == spec_field_strs(links@, "sc_item_option"@),
{
    let mut out: Vec<String> = Vec::new();
    let n = links.len();
    let mut i: usize = 0;
    assert(links@.take(0) =~= Seq::<Record>::empty());
    while i < n
        invariant
            0 <= i <= n == links@.len(),
            strings_view(out@) == spec_field_strs(links@.take(i as int), "sc_item_option"@),
        decreases n - i,
    {
        assert(links@.take(i + 1).drop_last() =~= links@.take(i as int));
        assert(links@.take(i + 1).last() == links@[i as int]);
        match links[i].get_str("sc_item_option") {
            Some(s) => {
                let ghost prev = out@;
                out.push(owned(s));
                assert(strings_view(out@) =~= strings_view(prev).push(s@));
            },
            None => {},
        }
        i = i + 1;
    }
    assert(links@.take(n as int) =~= links@);
    out
}

/// The second query: the options, with both raw and display values, so that
/// the definition's sys_id and its label can both be read.
pub fn catalog_options_query(opt_ids: &[String]) -> (r: TableApi)
    ensures
        is_in_query(
            r@,
            "sc_item_option"@,
            "sys_id"@,
            strings_view(opt_ids@),
            seq!["sys_id"@, "item_option_new"@, "value"@, "order"@],
            DisplayValue::Both,
        ),
{
    let fields = vec!["sys_id", "item_option_new", "value", "order"];
    assert(strs_view(fields@) =~= seq!["sys_id"@, "item_option_new"@, "value"@, "order"@]);
    in_query("sc_item_option", opt_ids, fields, DisplayValue::Both)
}

/// The sys_ids of the variable definitions that the options name, sorted,
/// without repeats and without empty ones.
pub fn definition_ids(options: &[Record]) -> (r: Vec<String>)
    ensures
        spec_strictly_sorted(strings_view(r@)),
        forall|k: Seq<char>| #[trigger] strings_view(r@).contains(k) <==> spec_nonempty_raws(options@, "item_option_new"@).contains(k),
{
    let mut ids: Vec<String> = Vec::new();
    let n = options.len();
    let mut i: usize = 0;
    assert(options@.take(0) =~= Seq::<Record>::empty());
    while i < n
        invariant
            0 <= i <= n == options@.len(),
            strings_view(ids@) == spec_nonempty_raws(options@.take(i as int), "item_option_new"@),
        decreases n - i,
    {
        assert(options@.take(i + 1).drop_last() =~= options@.take(i as int));
        assert(options@.take(i + 1).last() == options@[i as int]);
        match options[i].get_raw("item_option_new") {
            Some(s) => {
                if !s.is_empty() {
                    let ghost prev = ids@;
                    ids.push(owned(s));
                    assert(strings_view(ids@) =~= strings_view(prev).push(s@));
                }
            },
            None => {},
        }
        i = i + 1;
    }
    assert(options@.take(n as int) =~= options@);
    sorted_unique(ids.as_slice())
}

/// The third query: the variable definitions, with raw values, so that the
/// table columns give the table's name rather than its label.
pub fn catalog_definitions_query(def_ids: &[String]) -> (r: TableApi)
    ensures
        is_in_query(
            r@,
            "item_option_new"@,
            "sys_id"@,
            strings_view(def_ids@),
            seq!["sys_id"@, "reference"@, "list_table"@],
            DisplayValue::Raw,
        ),
{
    let fields = vec!["sys_id", "reference", "list_table"];
    assert(strs_view(fields@) =~= seq!["sys_id"@, "reference"@, "list_table"@]);
    in_query("item_option_new", def_ids, fields, DisplayValue::Raw)
}

/// The table a definition points to: its non-empty `reference` (reference
/// variables), else its non-empty `list_table` (list collectors).
pub open spec fn spec_definition_table(rec: Record) -> Option<Seq<char>> {
    match spec_rec_str(rec, "reference"@) {
        Some(t) if t.len() > 0 => Some(t),
        _ => match spec_rec_str(rec, "list_table"@) {
            Some(t) if t.len() > 0 => Some(t),
            _ => None,
        },
    }
}

/// The referenced tables of definitions by sys_id; a later definition with
/// the same sys_id replaces an earlier one.
pub open spec fn spec_reference_tables(defs: Seq<Record>) -> Map<Seq<char>, Seq<char>>
    decreases defs.len(),
{
    if defs.len() == 0 {
        Map::empty()
    } else {
        let rest = spec_reference_tables(defs.drop_last());
        match spec_definition_table(defs.last()) {
            Some(t) => rest.insert(defs.last().spec_sys_id(), t),
            None => rest,
        }
    }
}

fn nonempty_field_str<'a>(rec: &'a Record, field: &str) -> (r: Option<&'a str>)
    ensures
        opt_view_str(r) == match spec_rec_str(*rec, field@) {
            Some(t) if t.len() > 0 => Some(t),
            _ => None,
        },
{
    match rec.get_str(field) {
        Some(t) => if t.is_empty() {
            None
        } else {
            Some(t)
        },
        None => None,
    }
}

/// The characters of an optional string slice.
pub open spec fn opt_view_str(o: Option<&str>) -> Option<Seq<char>> {
    match o {
        Some(s) => Some(s@),
        None => None,
    }
}

/// The tables that the definitions point to, by definition sys_id.
pub fn reference_tables(definitions: &[Record]) -> (r: StrMap<String>)
    ensures
        r.deep() == spec_reference_tables(definitions@),
{
    let mut out: StrMap<String> = StrMap::new();
    let n = definitions.len();
    let mut i: usize = 0;
    assert(definitions@.take(0) =~= Seq::<Record>::empty());
    assert(out.deep() =~= Map::<Seq<char>, Seq<char>>::empty());
    while i < n
        invariant
            0 <= i <= n == definitions@.len(),
            out.deep() == spec_reference_tables(definitions@.take(i as int)),
        decreases n - i,
    {
        assert(definitions@.take(i + 1).drop_last() =~= definitions@.take(i as int));
        assert(definitions@.take(i + 1).last() == definitions@[i as int]);
        let rec = &definitions[i];
        let table = match nonempty_field_str(rec, "reference") {
            Some(t) => Some(t),
            None => nonempty_field_str(rec, "list_table"),
        };
        match table {
            Some(t) => {
                let ghost prev = out.deep();
                out.insert(owned(rec.sys_id_str()), owned(t));
                assert(out.deep() =~= prev.insert(rec.spec_sys_id(), t@));
            },
            None => {},
        }
        i = i + 1;
    }
    assert(definitions@.take(n as int) =~= definitions@);
    out
}

/// The form order of an option: its `order` as a number, 999 when absent or
/// not a number.
pub open spec fn spec_option_order(rec: Record) -> u32 {
    match spec_rec_str(rec, "order"@) {
        Some(o) => match spec_parse_uint(o, 0xffff_ffff) {
            Some(n) => n as u32,
            None => 999,
        },
        None => 999,
    }
}

/// The variable an option gives: none when it has no non-empty label; its
/// value, empty when absent; its order; and the table its definition points
/// to, when the definition is known and points to one.
pub open spec fn spec_variable_of(rec: Record, refs: Map<Seq<char>, Seq<char>>) -> Option<CatalogVariableView> {
    match spec_rec_str(rec, "item_option_new"@) {
        Some(name) => if name.len() == 0 {
            None
        } else {
            Some(
                (
                    name,
                    match spec_rec_str(rec, "value"@) {
                        Some(v) => v,
                        None => Seq::empty(),
                    },
                    spec_option_order(rec),
                    match spec_rec_raw(rec, "item_option_new"@) {
                        Some(id) => if refs.contains_key(id) {
                            Some(refs[id])
                        } else {
                            None
                        },
                        None => None,
                    },
                ),
            )
        },
        None => None,
    }
}

/// The variables of the options, in the options' order.
pub open spec fn spec_variables(opts: Seq<Record>, refs: Map<Seq<char>, Seq<char>>) -> Seq<CatalogVariableView>
    decreases opts.len(),
{
    if opts.len() == 0 {
        Seq::empty()
    } else {
        let rest = spec_variables(opts.drop_last(), refs);
        match spec_variable_of(opts.last(), refs) {
            Some(v) => rest.push(v),
            None => rest,
        }
    }
}

/// `x` inserted into `s` after every item whose order is not greater.
pub open spec fn spec_insert_by_order(s: Seq<CatalogVariableView>, x: CatalogVariableView) -> Seq<CatalogVariableView>
    decreases s.len(),
{
    if s.len() == 0 {
        seq![x]
    } else if s.last().2 <= x.2 {
        s.push(x)
    } else {
        spec_insert_by_order(s.drop_last(), x).push(s.last())
    }
}

/// A stable sort by form order: items of equal order keep their relative order.
pub open spec fn spec_sort_by_order(s: Seq<CatalogVariableView>) -> Seq<CatalogVariableView>
    decreases s.len(),
{
    if s.len() == 0 {
        Seq::empty()
    } else {
        spec_insert_by_order(spec_sort_by_order(s.drop_last()), s.last())
    }
}

/// Whether variables are in non-decreasing form order.
pub open spec fn spec_ordered(s: Seq<CatalogVariableView>) -> bool {
    forall|i: int, j: int| 0 <= i < j < s.len() ==> (#[trigger] s[i]).2 <= (#[trigger] s[j]).2
}

proof fn lemma_insert_keeps_order(s: Seq<CatalogVariableView>, x: CatalogVariableView)
    requires
        spec_ordered(s),
    ensures
        spec_ordered(spec_insert_by_order(s, x)),
        spec_insert_by_order(s, x).len() == s.len() + 1,
        spec_insert_by_order(s, x).to_multiset() == s.to_multiset().insert(x),
    decreases s.len(),
{
    let e = Seq::<CatalogVariableView>::empty();
    if s.len() == 0 {
        e.to_multiset_ensures();
        assert(seq![x] =~= e.push(x));
        assert(s =~= e);
        assert(spec_insert_by_order(s, x) == e.push(x));
    } else if s.last().2 <= x.2 {
        s.to_multiset_ensures();
        assert(spec_insert_by_order(s, x) == s.push(x));
        assert(s.push(x).to_multiset() =~= s.to_multiset().insert(x));
    } else {
        let d = s.drop_last();
        let l = s.last();
        assert(spec_ordered(d));
        lemma_insert_keeps_order(d, x);
        let t = spec_insert_by_order(d, x);
        assert(spec_insert_by_order(s, x) == t.push(l));
        t.to_multiset_ensures();
        d.to_multiset_ensures();
        assert forall|i: int, j: int| 0 <= i < j < t.push(l).len() implies (#[trigger] t.push(l)[i]).2
            <= (#[trigger] t.push(l)[j]).2 by {
            if j == t.len() {
                let ti = t[i];
                assert(t.contains(ti));
                assert(t.to_multiset().count(ti) > 0);
                assert(d.to_multiset().insert(x).count(ti) > 0);
                if ti != x {
                    assert(d.to_multiset().count(ti) > 0);
                    assert(d.contains(ti));
                    let k = choose|k: int| 0 <= k < d.len() && d[k] == ti;
                    assert(s[k] == ti);
                    assert(s[k].2 <= s[s.len() - 1].2);
                }
            } else {
                assert(t.push(l)[i] == t[i]);
                assert(t.push(l)[j] == t[j]);
            }
        }
        assert(s =~= d.push(l));
        assert(t.push(l).to_multiset() =~= t.to_multiset().insert(l));
        assert(d.push(l).to_multiset() =~= d.to_multiset().insert(l));
        assert(d.to_multiset().insert(x).insert(l) =~= d.to_multiset().insert(l).insert(x));
    }
}

/// Sorting by form order puts the variables in non-decreasing order and
/// keeps every variable, each as often as it occurs.
pub proof fn law_sorted_by_order(s: Seq<CatalogVariableView>)
    ensures
        spec_ordered(spec_sort_by_order(s)),
        spec_sort_by_order(s).to_multiset() == s.to_multiset(),
    decreases s.len(),
{
    if s.len() == 0 {
        assert(spec_sort_by_order(s) =~= s);
    } else {
        let d = s.drop_last();
        law_sorted_by_order(d);
        lemma_insert_keeps_order(spec_sort_by_order(d), s.last());
        d.to_multiset_ensures();
        assert(s =~= d.push(s.last()));
        assert(d.push(s.last()).to_multiset() =~= d.to_multiset().insert(s.last()));
    }
}

proof fn lemma_insert_at(s: Seq<CatalogVariableView>, x: CatalogVariableView, p: int)
    requires
        0 <= p <= s.len(),
        forall|j: int| p <= j < s.len() ==> (#[trigger] s[j]).2 > x.2,
        p == 0 || s[p - 1].2 <= x.2,
    ensures
        spec_insert_by_order(s, x) == s.take(p).push(x) + s.skip(p),
    decreases s.len(),
{
    if s.len() == 0 {
        assert(s.take(p).push(x) + s.skip(p) =~= seq![x]);
    } else if p == s.len() {
        assert(s.take(p).push(x) + s.skip(p) =~= s.push(x));
    } else {
        assert(s.last().2 > x.2);
        lemma_insert_at(s.drop_last(), x, p);
        assert(s.drop_last().take(p) =~= s.take(p));
        assert(s.take(p).push(x) + s.skip(p) =~= (s.drop_last().take(p).push(x) + s.drop_last().skip(p)).push(s.last()));
    }
}

fn variable_of(rec: &Record, refs: &StrMap<String>) -> (r: Option<CatalogVariable>)
    ensures
        match r {
            Some(v) => spec_variable_of(*rec, refs.deep()) == Some(v@),
            None => spec_variable_of(*rec, refs.deep()).is_none(),
        },
{
    let name = match rec.get_str("item_option_new") {
        Some(n) => n,
        None => {
            return None;
        },
    };
    if name.is_empty() {
        return None;
    }
    let value = match rec.get_str("value") {
        Some(v) => owned(v),
        None => String::new(),
    };
    let order: u32 = match rec.get_str("order") {
        Some(o) => match parse_uint(o, 0xffff_ffff) {
            Some(n) => n as u32,
            None => 999,
        },
        None => 999,
    };
    let reference_table = match rec.get_raw("item_option_new") {
        Some(id) => match refs.get(id) {
            Some(t) => Some(t.clone()),
            None => None,
        },
        None => None,
    };
    Some(CatalogVariable { name: owned(name), value, order, reference_table })
}

/// The catalog variables of the options, stably sorted by form order;
/// options without a label are left out.
pub fn catalog_variables_from(options: &[Record], refs: &StrMap<String>) -> (r: Vec<CatalogVariable>)
    ensures
        vars_view(r@) == spec_sort_by_order(spec_variables(options@, refs.deep())),
{
    let mut out: Vec<CatalogVariable> = Vec::new();
    let ghost vars = spec_variables(options@, refs.deep());
    let n = options.len();
    let mut i: usize = 0;
    assert(options@.take(0) =~= Seq::<Record>::empty());
    assert(vars_view(out@) =~= spec_sort_by_order(Seq::empty()));
    while i < n
        invariant
            0 <= i <= n == options@.len(),
            vars_view(out@) == spec_sort_by_order(spec_variables(options@.take(i as int), refs.deep())),
        decreases n - i,
    {
        assert(options@.take(i + 1).drop_last() =~= options@.take(i as int));
        assert(options@.take(i + 1).last() == options@[i as int]);
        let ghost vs_before = spec_variables(options@.take(i as int), refs.deep());
        match variable_of(&options[i], refs) {
            Some(x) => {
                proof {
                    assert(spec_variables(options@.take(i + 1), refs.deep()) == vs_before.push(x@));
                    assert(vs_before.push(x@).drop_last() =~= vs_before);
                }
                let ghost before = vars_view(out@);
                let ghost xv = x@;
                let mut p = out.len();
                while p > 0 && out[p - 1].order > x.order
                    invariant
                        0 <= p <= out@.len(),
                        vars_view(out@) == before,
                        forall|j: int| p <= j < out@.len() ==> (#[trigger] before[j]).2 > xv.2,
                        x@ == xv,
                    decreases p,
                {
                    assert(before[p - 1] == out@[p - 1]@);
                    p = p - 1;
                }
                proof {
                    if p > 0 {
                        assert(before[p - 1] == out@[p - 1]@);
                    }
                    lemma_insert_at(before, xv, p as int);
                }
                out.insert(p, x);
                assert(vars_view(out@) =~= before.take(p as int).push(xv) + before.skip(p as int));
            },
            None => {
                assert(spec_variables(options@.take(i + 1), refs.deep()) == vs_before);
            },
        }
        i = i + 1;
    }
    assert(options@.take(n as int) =~= options@);
    out
}

/// The sys_ids among the comma-separated pieces of a value, trimmed, in order.
pub open spec fn spec_value_ids(pieces: Seq<Seq<char>>) -> Seq<Seq<char>>
    decreases pieces.len(),
{
    if pieces.len() == 0 {
        Seq::empty()
    } else {
        let rest = spec_value_ids(pieces.drop_last());
        let t = spec_trim(pieces.last());
        if spec_is_sys_id(t) {
            rest.push(t)
        } else {
            rest
        }
    }
}

/// The sys_ids that reference variables hold, by referenced table, in the
/// order of the variables; a table appears once one of its ids was found.
pub open spec fn spec_reference_ids(vars: Seq<CatalogVariableView>) -> Map<Seq<char>, Seq<Seq<char>>>
    decreases vars.len(),
{
    if vars.len() == 0 {
        Map::empty()
    } else {
        let rest = spec_reference_ids(vars.drop_last());
        let v = vars.last();
        match v.3 {
            Some(t) => {
                let ids = spec_value_ids(spec_split(v.1, ','));
                if ids.len() > 0 {
                    rest.insert(
                        t,
                        (if rest.contains_key(t) {
                            rest[t]
                        } else {
                            Seq::empty()
                        }) + ids,
                    )
                } else {
                    rest
                }
            },
            None => rest,
        }
    }
}

fn value_ids(value: &str) -> (r: Vec<String>)
    ensures
        strings_view(r@) == spec_value_ids(spec_split(value@, ',')),
{
    let pieces = split_char(value, ',');
    let ghost ps = spec_split(value@, ',');
    let mut out: Vec<String> = Vec::new();
    let n = pieces.len();
    let mut i: usize = 0;
    assert(ps.take(0) =~= Seq::<Seq<char>>::empty());
    while i < n
        invariant
            0 <= i <= n == pieces@.len() == ps.len(),
            ps == spec_split(value@, ','),
            forall|j: int| 0 <= j < pieces@.len() ==> #[trigger] pieces@[j]@ == ps[j],
            strings_view(out@) == spec_value_ids(ps.take(i as int)),
        decreases n - i,
    {
        assert(ps.take(i + 1).drop_last() =~= ps.take(i as int));
        assert(ps.take(i + 1).last() == ps[i as int]);
        let t = trim(pieces[i].as_str());
        if is_sys_id(t.as_str()) {
            let ghost prev = out@;
            let ghost tv = t@;
            out.push(t);
            assert(strings_view(out@) =~= strings_view(prev).push(tv));
        }
        i = i + 1;
    }
    assert(ps.take(n as int) =~= ps);
    out
}

/// The sys_ids held by reference variables, grouped by the table they point to.
pub fn reference_ids_by_table(variables: &[CatalogVariable]) -> (r: StrMap<Vec<String>>)
    ensures
        forall|t: Seq<char>| #[trigger] r@.contains_key(t) <==> spec_reference_ids(vars_view(variables@)).contains_key(t),
        forall|t: Seq<char>| #[trigger] r@.contains_key(t) ==> strings_view(r@[t]@) == spec_reference_ids(vars_view(variables@))[t],
{
    let mut out: StrMap<Vec<String>> = StrMap::new();
    let n = variables.len();
    let mut i: usize = 0;
    assert(vars_view(variables@).take(0) =~= Seq::<CatalogVariableView>::empty());
    while i < n
        invariant
            0 <= i <= n == variables@.len(),
            forall|t: Seq<char>| #[trigger] out@.contains_key(t) <==> spec_reference_ids(vars_view(variables@).take(i as int)).contains_key(t),
            forall|t: Seq<char>| #[trigger] out@.contains_key(t) ==> strings_view(out@[t]@) == spec_reference_ids(vars_view(variables@).take(i as int))[t],
        decreases n - i,
    {
        let ghost vs = vars_view(variables@);
        assert(vs.take(i + 1).drop_last() =~= vs.take(i as int));
        assert(vs.take(i + 1).last() == variables@[i as int]@);
        let var = &variables[i];
        match &var.reference_table {
            Some(t) => {
                let ids = value_ids(var.value.as_str());
                if ids.len() > 0 {
                    let ghost prev = out@;
                    let ghost idv = strings_view(ids@);
                    let mut group = match out.remove(t.as_str()) {
                        Some(g) => g,
                        None => Vec::new(),
                    };
                    let ghost before = strings_view(group@);
                    let m = ids.len();
                    let mut j: usize = 0;
                    while j < m
                        invariant
                            0 <= j <= m == ids@.len(),
                            strings_view(group@) == before + strings_view(ids@).take(j as int),
                        decreases m - j,
                    {
                        let ghost g0 = group@;
                        group.push(ids[j].clone());
                        assert(strings_view(group@) =~= strings_view(g0).push(ids@[j as int]@));
                        j = j + 1;
                        assert(strings_view(ids@).take(j as int) =~= strings_view(ids@).take(j - 1).push(ids@[j - 1]@));
                    }
                    assert(strings_view(ids@).take(m as int) =~= idv);
                    out.insert(t.clone(), group);
                    proof {
                        let spec_prev = spec_reference_ids(vs.take(i as int));
                        assert(before == (if spec_prev.contains_key(t@) {
                            spec_prev[t@]
                        } else {
                            Seq::<Seq<char>>::empty()
                        })) by {
                            if !prev.contains_key(t@) {
                                assert(before =~= Seq::<Seq<char>>::empty());
                            }
                        }
                    }
                }
            },
            None => {},
        }
        i = i + 1;
    }
    assert(vars_view(variables@).take(n as int) =~= vars_view(variables@));
    out
}

/// The query that reads the names of referenced records of one table: their
/// sys_ids, sorted and without repeats, with display values.
pub fn reference_names_query(table: &str, ids: &[String]) -> (r: TableApi)
    ensures
        exists|sorted: Seq<Seq<char>>| {
            &&& spec_strictly_sorted(sorted)
            &&& forall|k: Seq<char>| #[trigger] sorted.contains(k) <==> strings_view(ids@).contains(k)
            &&& is_in_query(r@, table@, "sys_id"@, sorted, seq!["sys_id"@, "name"@], DisplayValue::Display)
        },
{
    let unique = sorted_unique(ids);
    let fields = vec!["sys_id", "name"];
    assert(strs_view(fields@) =~= seq!["sys_id"@, "name"@]);
    let r = in_query(table, unique.as_slice(), fields, DisplayValue::Display);
    assert(spec_strictly_sorted(strings_view(unique@)));
    r
}

/// The names read for referenced records: each record with a non-empty
/// `name` maps its sys_id to that name, later records replacing earlier ones.
pub open spec fn spec_reference_names(names: Map<Seq<char>, Seq<char>>, rs: Seq<Record>) -> Map<Seq<char>, Seq<char>>
    decreases rs.len(),
{
    if rs.len() == 0 {
        names
    } else {
        let rest = spec_reference_names(names, rs.drop_last());
        match spec_rec_str(rs.last(), "name"@) {
            Some(n) if n.len() > 0 => rest.insert(rs.last().spec_sys_id(), n),
            _ => rest,
        }
    }
}

/// Add the names of referenced records to `names`.
pub fn collect_reference_names(names: &mut StrMap<String>, records: &[Record])
    ensures
        final(names).deep() == spec_reference_names(old(names).deep(), records@),
{
    let n = records.len();
    let mut i: usize = 0;
    assert(records@.take(0) =~= Seq::<Record>::empty());
    while i < n
        invariant
            0 <= i <= n == records@.len(),
            names.deep() == spec_reference_names(old(names).deep(), records@.take(i as int)),
        decreases n - i,
    {
        assert(records@.take(i + 1).drop_last() =~= records@.take(i as int));
        assert(records@.take(i + 1).last() == records@[i as int]);
        let rec = &records[i];
        match nonempty_field_str(rec, "name") {
            Some(nm) => {
                let ghost prev = names.deep();
                names.insert(owned(rec.sys_id_str()), owned(nm));
                assert(names.deep() =~= prev.insert(rec.spec_sys_id(), nm@));
            },
            None => {},
        }
        i = i + 1;
    }
    assert(records@.take(n as int) =~= records@);
}

/// The display of one piece of a value: the name of its trimmed id when
/// known, the trimmed piece otherwise.
pub open spec fn spec_piece_name(names: Map<Seq<char>, Seq<char>>, piece: Seq<char>) -> Seq<char> {
    if names.contains_key(spec_trim(piece)) {
        names[spec_trim(piece)]
    } else {
        spec_trim(piece)
    }
}

/// The value of a reference variable with its known ids replaced by names:
/// unchanged when none of its pieces is a known id; otherwise each piece
/// becomes its name or its trimmed self, joined with `", "`.
pub open spec fn spec_resolved_value(names: Map<Seq<char>, Seq<char>>, value: Seq<char>) -> Seq<char> {
    let pieces = spec_split(value, ',');
    if exists|i: int| 0 <= i < pieces.len() && names.contains_key(spec_trim(#[trigger] pieces[i])) {
        spec_join(pieces.map_values(|p: Seq<char>| spec_piece_name(names, p)), ", "@)
    } else {
        value
    }
}

/// A variable after resolution: reference variables get their ids replaced
/// by names; others are unchanged.
pub open spec fn spec_resolved(names: Map<Seq<char>, Seq<char>>, v: CatalogVariableView) -> CatalogVariableView {
    match v.3 {
        Some(_) => (v.0, spec_resolved_value(names, v.1), v.2, v.3),
        None => v,
    }
}

fn resolve_value(names: &StrMap<String>, value: &str) -> (r: String)
    ensures
        r@ == spec_resolved_value(names.deep(), value@),
{
    let pieces = split_char(value, ',');
    let ghost ps = spec_split(value@, ',');
    let ghost nm = names.deep();
    let n = pieces.len();
    let mut parts: Vec<String> = Vec::new();
    let mut any = false;
    let mut i: usize = 0;
    while i < n
        invariant
            0 <= i <= n == pieces@.len() == ps.len(),
            ps == spec_split(value@, ','),
            nm == names.deep(),
            forall|j: int| 0 <= j < pieces@.len() ==> #[trigger] pieces@[j]@ == ps[j],
            parts@.len() == i,
            strings_view(parts@) == ps.take(i as int).map_values(|p: Seq<char>| spec_piece_name(nm, p)),
            any == exists|j: int| 0 <= j < i && nm.contains_key(spec_trim(#[trigger] ps[j])),
        decreases n - i,
    {
        let t = trim(pieces[i].as_str());
        let ghost tv = t@;
        assert(tv == spec_trim(ps[i as int]));
        let ghost prev = parts@;
        let ghost any_before = any;
        let piece = match names.get(t.as_str()) {
            Some(name) => {
                any = true;
                assert(name@ == nm[tv]);
                name.clone()
            },
            None => t,
        };
        assert(piece@ == spec_piece_name(nm, ps[i as int]));
        parts.push(piece);
        proof {
            assert(ps.take(i + 1) =~= ps.take(i as int).push(ps[i as int]));
            assert(strings_view(parts@) =~= strings_view(prev).push(spec_piece_name(nm, ps[i as int])));
            assert(ps.take(i + 1).map_values(|p: Seq<char>| spec_piece_name(nm, p)) =~= ps.take(i as int).map_values(
                |p: Seq<char>| spec_piece_name(nm, p),
            ).push(spec_piece_name(nm, ps[i as int])));
            assert(strings_view(parts@) =~= ps.take(i + 1).map_values(|p: Seq<char>| spec_piece_name(nm, p)));
            if any {
                if nm.contains_key(tv) {
                    assert(nm.contains_key(spec_trim(ps[i as int])));
                }
            }
            assert(any == exists|j: int| 0 <= j < i + 1 && nm.contains_key(spec_trim(#[trigger] ps[j]))) by {
                if exists|j: int| 0 <= j < i + 1 && nm.contains_key(spec_trim(#[trigger] ps[j])) {
                    let j = choose|j: int| 0 <= j < i + 1 && nm.contains_key(spec_trim(#[trigger] ps[j]));
                    if j < i {
                        assert(any_before);
                    } else {
                        assert(nm.contains_key(tv));
                    }
                }
            }
        }
        i = i + 1;
    }
    assert(ps.take(n as int) =~= ps);
    if any {
        join(parts.as_slice(), ", ")
    } else {
        owned(value)
    }
}

/// Replace the sys_ids of reference variables by the names read for them.
pub fn apply_reference_names(variables: Vec<CatalogVariable>, names: &StrMap<String>) -> (r: Vec<CatalogVariable>)
    ensures
        vars_view(r@) == vars_view(variables@).map_values(|v: CatalogVariableView| spec_resolved(names.deep(), v)),
{
    let ghost all = variables@;
    let mut rest = variables;
    let mut out: Vec<CatalogVariable> = Vec::new();
    let n = rest.len();
    let mut i: usize = 0;
    assert(all.skip(0) =~= all);
    while i < n
        invariant
            0 <= i <= n == all.len(),
            rest@ == all.skip(i as int),
            out@.len() == i,
            vars_view(out@) == vars_view(all).take(i as int).map_values(|v: CatalogVariableView| spec_resolved(names.deep(), v)),
        decreases n - i,
    {
        let mut var = rest.remove(0);
        assert(rest@ =~= all.skip(i + 1));
        assert(var == all[i as int]);
        if var.reference_table.is_some() {
            var.value = resolve_value(names, var.value.as_str());
        }
        assert(var@ == spec_resolved(names.deep(), all[i as int]@));
        let ghost prev = vars_view(out@);
        let ghost vv = var@;
        out.push(var);
        proof {
            let f = |v: CatalogVariableView| spec_resolved(names.deep(), v);
            assert(vars_view(out@) =~= prev.push(vv));
            assert(vars_view(all).take(i + 1) =~= vars_view(all).take(i as int).push(all[i as int]@));
            assert(vars_view(all).take(i + 1).map_values(f) =~= vars_view(all).take(i as int).map_values(f).push(f(all[i as int]@)));
        }
        assert(vars_view(out@) =~= vars_view(all).take(i + 1).map_values(|v: CatalogVariableView| spec_resolved(names.deep(), v)));
        i = i + 1;
    }
    assert(vars_view(all).take(n as int) =~= vars_view(all));
    out
}

} // verus!
