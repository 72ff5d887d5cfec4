//! Reading the Task SLA rows of tasks from `task_sla`: the queries, the
//! chunks of task ids they are read in, and the order in which a task's rows
//! are handed out.

use vstd::prelude::*;
use crate::model::value::DisplayValue;
use crate::query::builder::{spec_new_query, TableApi, TableApiView};
use crate::client::is_and_condition;
use crate::query::filter::Operator;
use crate::model::record::Record;
use crate::model::sla::{bool_field, spec_bool_field, spec_non_empty, spec_raw_or_display, string_field};
use crate::model::value::opt_view;
use crate::text::{lemma_lex_total, lemma_lex_transitive, spec_lex_lt, str_lt, strs_view};

verus! {

/// The fields read of Task SLA rows: those of the typed row and its summary.
pub open spec fn spec_task_sla_fields() -> Seq<Seq<char>> {
    seq![
        "sys_id"@,
        "task"@,
        "sla"@,
        "stage"@,
        "active"@,
        "has_breached"@,
        "start_time"@,
        "end_time"@,
        "planned_end_time"@,
        "original_breach_time"@,
        "percentage"@,
        "time_left"@,
        "business_percentage"@,
        "business_time_left"@,
        "business_duration"@,
        "duration"@,
        "schedule"@,
    ]
}

/// A query of `task_sla` with the Task SLA fields, in raw and display values.
fn task_sla_base() -> (r: TableApi)
    ensures
        r@ == (TableApiView {
            fields: Some(spec_task_sla_fields()),
            display_value: DisplayValue::Both,
            ..spec_new_query("task_sla"@)
        }),
{
    let fields = vec![
        "sys_id",
        "task",
        "sla",
        "stage",
        "active",
        "has_breached",
        "start_time",
        "end_time",
        "planned_end_time",
        "original_breach_time",
        "percentage",
        "time_left",
        "business_percentage",
        "business_time_left",
        "business_duration",
        "duration",
        "schedule",
    ];
    assert(strs_view(fields@) =~= spec_task_sla_fields());
    TableApi::new("task_sla").fields(fields.as_slice()).display_value(DisplayValue::Both)
}

/// The Task SLA rows of one task: `task=<task_sys_id>`, with the Task SLA
/// fields in raw and display values, and no ordering, so that callers can add
/// their own.
pub fn task_slas_query(task_sys_id: &str) -> (r: TableApi)
    ensures
        r@.conditions.len() == 1,
        is_and_condition(r@.conditions[0], "task"@, Operator::Equals, task_sys_id@),
        r@ == (TableApiView {
            conditions: r@.conditions,
            fields: Some(spec_task_sla_fields()),
            display_value: DisplayValue::Both,
            ..spec_new_query("task_sla"@)
        }),
{
    task_sla_base().equals("task", task_sys_id)
}

/// The Task SLA rows of a chunk of tasks: `task IN <id_list>` (ids joined by
/// commas), with the Task SLA fields in raw and display values, without the
/// total count, which reading pages until a short one does not need.
pub fn task_sla_chunk_query(id_list: &str) -> (r: TableApi)
    ensures
        r@.conditions.len() == 1,
        is_and_condition(r@.conditions[0], "task"@, Operator::In, id_list@),
        r@ == (TableApiView {
            conditions: r@.conditions,
            fields: Some(spec_task_sla_fields()),
            display_value: DisplayValue::Both,
            no_count: true,
            ..spec_new_query("task_sla"@)
        }),
{
    task_sla_base().filter("task", Operator::In, id_list).no_count()
}

/// The rank of a row: active rows first, then unbreached ones, then by
/// non-empty planned end time, rows without one last.
pub type SlaRank = (int, int, Option<Seq<char>>);

/// The rank of a Task SLA row, from its raw values (display values when no
/// raw value is given).
pub open spec fn spec_sla_rank(rec: Record) -> SlaRank {
    (
        if spec_bool_field(rec, "active"@) == Some(true) {
            0int
        } else {
            1int
        },
        if spec_bool_field(rec, "has_breached"@) == Some(false) {
            0int
        } else {
            1int
        },
        spec_non_empty(spec_raw_or_display(rec, "planned_end_time"@)),
    )
}

/// Whether planned end time `p` comes strictly before `q`: ServiceNow's
/// `YYYY-MM-DD HH:MM:SS` times order as their text does; a time comes before
/// no time.
pub open spec fn spec_time_before(p: Option<Seq<char>>, q: Option<Seq<char>>) -> bool {
    match (p, q) {
        (Some(x), Some(y)) => spec_lex_lt(x, y),
        (Some(_), None) => true,
        _ => false,
    }
}

/// Whether rank `a` comes strictly before rank `b`.
pub open spec fn spec_rank_before(a: SlaRank, b: SlaRank) -> bool {
    a.0 < b.0 || (a.0 == b.0 && (a.1 < b.1 || (a.1 == b.1 && spec_time_before(a.2, b.2))))
}

/// Whether row `x` comes strictly before row `y`.
pub open spec fn spec_sla_before(x: Record, y: Record) -> bool {
    spec_rank_before(spec_sla_rank(x), spec_sla_rank(y))
}

/// `x` placed after the last row that does not come after it.
pub open spec fn spec_insert_sla(s: Seq<Record>, x: Record) -> Seq<Record>
    decreases s.len(),
{
    if s.len() == 0 {
        seq![x]
    } else if !spec_sla_before(x, s.last()) {
        s.push(x)
    } else {
        spec_insert_sla(s.drop_last(), x).push(s.last())
    }
}

/// The rows stably sorted by rank: rows of equal rank keep their order.
pub open spec fn spec_sort_slas(s: Seq<Record>) -> Seq<Record>
    decreases s.len(),
{
    if s.len() == 0 {
        Seq::empty()
    } else {
        spec_insert_sla(spec_sort_slas(s.drop_last()), s.last())
    }
}

/// Whether no row comes before a row ahead of it.
pub open spec fn spec_slas_ordered(s: Seq<Record>) -> bool {
    forall|i: int, j: int| 0 <= i < j < s.len() ==> !spec_sla_before(#[trigger] s[j], #[trigger] s[i])
}

proof fn lemma_time_order(a: Option<Seq<char>>, b: Option<Seq<char>>, c: Option<Seq<char>>)
    ensures
        !spec_time_before(a, a),
        spec_time_before(a, b) && spec_time_before(b, c) ==> spec_time_before(a, c),
        !spec_time_before(a, b) && !spec_time_before(b, c) ==> !spec_time_before(a, c),
        !spec_time_before(a, b) && !spec_time_before(b, a) ==> a == b,
{
    match a {
        Some(x) => {
            lemma_lex_total(x, x);
        },
        None => {},
    }
    match (a, b, c) {
        (Some(x), Some(y), Some(z)) => {
            lemma_lex_total(x, y);
            lemma_lex_total(y, z);
            lemma_lex_total(x, z);
            if spec_lex_lt(x, y) && spec_lex_lt(y, z) {
                lemma_lex_transitive(x, y, z);
            }
            if spec_lex_lt(y, x) && spec_lex_lt(z, y) {
                lemma_lex_transitive(z, y, x);
            }
        },
        (Some(x), Some(y), None) => {
            lemma_lex_total(x, y);
        },
        _ => {},
    }
}

/// Ranks form a strict weak order: no rank before itself, "before" chains,
/// and so does "not before".
proof fn lemma_rank_order(a: SlaRank, b: SlaRank, c: SlaRank)
    ensures
        !spec_rank_before(a, a),
        spec_rank_before(a, b) && spec_rank_before(b, c) ==> spec_rank_before(a, c),
        !spec_rank_before(a, b) && !spec_rank_before(b, c) ==> !spec_rank_before(a, c),
{
    lemma_time_order(a.2, b.2, c.2);
}

proof fn lemma_insert_keeps_order(s: Seq<Record>, x: Record)
    requires
        spec_slas_ordered(s),
    ensures
        spec_slas_ordered(spec_insert_sla(s, x)),
        spec_insert_sla(s, x).to_multiset() == s.to_multiset().insert(x),
    decreases s.len(),
{
    let e = Seq::<Record>::empty();
    if s.len() == 0 {
        e.to_multiset_ensures();
        assert(seq![x] =~= e.push(x));
        assert(s =~= e);
        assert(spec_insert_sla(s, x) == e.push(x));
    } else if !spec_sla_before(x, s.last()) {
        let r = s.push(x);
        assert forall|i: int, j: int| 0 <= i < j < r.len() implies !spec_sla_before(#[trigger] r[j], #[trigger] r[i]) by {
            if j == s.len() {
                lemma_rank_order(spec_sla_rank(x), spec_sla_rank(s.last()), spec_sla_rank(s[i]));
                if i < s.len() - 1 {
                    assert(!spec_sla_before(s[s.len() - 1], s[i]));
                }
            } else {
                assert(r[i] == s[i] && r[j] == s[j]);
            }
        }
        s.to_multiset_ensures();
        assert(spec_insert_sla(s, x) == s.push(x));
        assert(s.push(x).to_multiset() =~= s.to_multiset().insert(x));
    } else {
        let d = s.drop_last();
        let l = s.last();
        assert(spec_slas_ordered(d)) by {
            assert forall|i: int, j: int| 0 <= i < j < d.len() implies !spec_sla_before(#[trigger] d[j], #[trigger] d[i]) by {
                assert(d[i] == s[i] && d[j] == s[j]);
            }
        }
        lemma_insert_keeps_order(d, x);
        let t = spec_insert_sla(d, x);
        let r = t.push(l);
        assert(spec_insert_sla(s, x) == r);
        assert forall|k: int| 0 <= k < t.len() implies !spec_sla_before(l, #[trigger] t[k]) by {
            t.to_multiset_ensures();
            d.to_multiset_ensures();
            assert(t.to_multiset().count(t[k]) > 0);
            if t[k] == x {
                lemma_rank_order(spec_sla_rank(x), spec_sla_rank(l), spec_sla_rank(x));
                lemma_rank_order(spec_sla_rank(l), spec_sla_rank(x), spec_sla_rank(l));
            } else {
                assert(d.to_multiset().count(t[k]) > 0);
                assert(d.contains(t[k]));
                let i = choose|i: int| 0 <= i < d.len() && d[i] == t[k];
                assert(s[i] == d[i]);
                assert(!spec_sla_before(s[s.len() - 1], s[i]));
            }
        }
        assert forall|i: int, j: int| 0 <= i < j < r.len() implies !spec_sla_before(#[trigger] r[j], #[trigger] r[i]) by {
            if j == t.len() {
                assert(r[j] == l && r[i] == t[i]);
            } else {
                assert(r[i] == t[i] && r[j] == t[j]);
            }
        }
        t.to_multiset_ensures();
        d.to_multiset_ensures();
        s.to_multiset_ensures();
        assert(s =~= d.push(l));
        assert(r.to_multiset() =~= t.to_multiset().insert(l));
        assert(s.to_multiset() =~= d.to_multiset().insert(l));
        assert(d.to_multiset().insert(x).insert(l) =~= d.to_multiset().insert(l).insert(x));
    }
}

/// Ordering a task's Task SLA rows puts no row after one it comes before, and
/// keeps every row.
pub proof fn law_slas_ordered(s: Seq<Record>)
    ensures
        spec_slas_ordered(spec_sort_slas(s)),
        spec_sort_slas(s).to_multiset() == s.to_multiset(),
    decreases s.len(),
{
    if s.len() == 0 {
        assert(spec_sort_slas(s) =~= s);
    } else {
        let d = s.drop_last();
        law_slas_ordered(d);
        lemma_insert_keeps_order(spec_sort_slas(d), s.last());
        d.to_multiset_ensures();
        assert(s =~= d.push(s.last()));
        assert(d.push(s.last()).to_multiset() =~= d.to_multiset().insert(s.last()));
    }
}

proof fn lemma_insert_at(s: Seq<Record>, x: Record, p: int)
    requires
        0 <= p <= s.len(),
        forall|j: int| p <= j < s.len() ==> spec_sla_before(x, #[trigger] s[j]),
        p == 0 || !spec_sla_before(x, s[p - 1]),
    ensures
        spec_insert_sla(s, x) == s.take(p).push(x) + s.skip(p),
    decreases s.len(),
{
    if s.len() == 0 {
        assert(s.take(p).push(x) + s.skip(p) =~= seq![x]);
    } else if p == s.len() {
        assert(s.take(p).push(x) + s.skip(p) =~= s.push(x));
    } else {
        assert(spec_sla_before(x, s[s.len() - 1]));
        lemma_insert_at(s.drop_last(), x, p);
        assert(s.drop_last().take(p) =~= s.take(p));
        assert(s.take(p).push(x) + s.skip(p) =~= (s.drop_last().take(p).push(x) + s.drop_last().skip(p)).push(s.last()));
    }
}

/// The rank of a row as executable values.
pub open spec fn rank_view(k: (u8, u8, Option<String>)) -> SlaRank {
    (k.0 as int, k.1 as int, opt_view(k.2))
}

fn sla_rank(rec: &Record) -> (r: (u8, u8, Option<String>))
    ensures
        rank_view(r) == spec_sla_rank(*rec),
{
    let active: u8 = match bool_field(rec, "active") {
        Some(true) => 0,
        _ => 1,
    };
    let breached: u8 = match bool_field(rec, "has_breached") {
        Some(false) => 0,
        _ => 1,
    };
    (active, breached, string_field(rec, "planned_end_time"))
}

fn rank_before(a: &(u8, u8, Option<String>), b: &(u8, u8, Option<String>)) -> (r: bool)
    ensures
        r == spec_rank_before(rank_view(*a), rank_view(*b)),
{
    if a.0 != b.0 {
        return a.0 < b.0;
    }
    if a.1 != b.1 {
        return a.1 < b.1;
    }
    match (&a.2, &b.2) {
        (Some(x), Some(y)) => str_lt(x.as_str(), y.as_str()),
        (Some(_), None) => true,
        _ => false,
    }
}

/// A task's Task SLA rows in the order they are handed out: active rows
/// first, then unbreached ones, then by planned end time, earliest first and
/// rows without one last; rows of equal rank keep the order they came in.
pub fn order_task_slas(rows: Vec<Record>) -> (r: Vec<Record>)
    ensures
        r@ == spec_sort_slas(rows@),
{
    let ghost all = rows@;
    let mut rest = rows;
    let mut out: Vec<Record> = Vec::new();
    let mut ranks: Vec<(u8, u8, Option<String>)> = Vec::new();
    let n = rest.len();
    let mut i: usize = 0;
    assert(all.skip(0) =~= all);
    assert(all.take(0) =~= Seq::<Record>::empty());
    while i < n
        invariant
            0 <= i <= n == all.len(),
            rest@ == all.skip(i as int),
            out@ == spec_sort_slas(all.take(i as int)),
            ranks@.len() == out@.len(),
            forall|j: int| 0 <= j < out@.len() ==> rank_view(#[trigger] ranks@[j]) == spec_sla_rank(out@[j]),
        decreases n - i,
    {
        let x = rest.remove(0);
        assert(rest@ =~= all.skip(i + 1));
        assert(all.take(i + 1).drop_last() =~= all.take(i as int));
        assert(all.take(i + 1).last() == all[i as int]);
        let k = sla_rank(&x);
        let ghost before = out@;
        let ghost before_ranks = ranks@;
        let mut p = out.len();
        while p > 0 && rank_before(&k, &ranks[p - 1])
            invariant
                0 <= p <= out@.len(),
                out@ == before,
                ranks@ == before_ranks,
                ranks@.len() == out@.len(),
                forall|j: int| 0 <= j < out@.len() ==> rank_view(#[trigger] ranks@[j]) == spec_sla_rank(out@[j]),
                rank_view(k) == spec_sla_rank(x),
                forall|j: int| p <= j < out@.len() ==> spec_sla_before(x, #[trigger] before[j]),
            decreases p,
        {
            assert(rank_view(ranks@[p - 1]) == spec_sla_rank(out@[p - 1]));
            p = p - 1;
        }
        proof {
            if p > 0 {
                assert(rank_view(ranks@[p - 1]) == spec_sla_rank(out@[p - 1]));
            }
            lemma_insert_at(before, x, p as int);
        }
        out.insert(p, x);
        ranks.insert(p, k);
        assert(out@ =~= before.take(p as int).push(x) + before.skip(p as int));
        proof {
            assert forall|j: int| 0 <= j < out@.len() implies rank_view(#[trigger] ranks@[j]) == spec_sla_rank(out@[j]) by {
                if j < p {
                    assert(ranks@[j] == before_ranks[j] && out@[j] == before[j]);
                } else if j > p {
                    assert(ranks@[j] == before_ranks[j - 1] && out@[j] == before[j - 1]);
                }
            }
        }
        i = i + 1;
    }
    assert(all.take(n as int) =~= all);
    out
}

} // verus!
