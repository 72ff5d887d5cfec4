//! Fetching related records in batches: which parents to ask for, how the
//! requests are chunked and written, and how the answers are distributed back
//! to their parents.

use vstd::prelude::*;
use crate::model::json::JsonValue;
use crate::model::record::{spec_fields_of, spec_record_sys_id, Record};
use crate::model::value::{spec_field_str, spec_raw_str, DisplayValue, FieldView, spec_display_param};
use crate::schema::definition::RelationshipDef;
use crate::query::params::params_view;
use crate::strmap::StrMap;
use crate::text::{
    concat, contains_string, join_range, owned, push_str, spec_join, strings_view, strs_view,
};

verus! {

/// How many parent ids one request names at most.
pub const RELATED_QUERY_CHUNK_SIZE: usize = 100;

/// How many chunk requests of one relationship run at once.
pub const RELATED_QUERY_MAX_CONCURRENCY: usize = 4;

/// The sys_ids of a list of records.
pub open spec fn sys_ids_of(rs: Seq<Record>) -> Seq<Seq<char>> {
    rs.map_values(|r: Record| r.spec_sys_id())
}

/// A list without repeats, each item where it first occurs.
pub open spec fn spec_unique(ids: Seq<Seq<char>>) -> Seq<Seq<char>>
    decreases ids.len(),
{
    if ids.len() == 0 {
        Seq::empty()
    } else {
        let rest = spec_unique(ids.drop_last());
        if rest.contains(ids.last()) {
            rest
        } else {
            rest.push(ids.last())
        }
    }
}

/// The unique list holds exactly the items of the list, each once.
pub proof fn lemma_unique(ids: Seq<Seq<char>>)
    ensures
        spec_unique(ids).no_duplicates(),
        forall|k: Seq<char>| #[trigger] spec_unique(ids).contains(k) <==> ids.contains(k),
    decreases ids.len(),
{
    if ids.len() > 0 {
        let rest = spec_unique(ids.drop_last());
        lemma_unique(ids.drop_last());
        assert forall|k: Seq<char>| #[trigger] spec_unique(ids).contains(k) <==> ids.contains(k) by {
            if ids.contains(k) {
                let i = choose|i: int| 0 <= i < ids.len() && ids[i] == k;
                if i < ids.len() - 1 {
                    assert(ids.drop_last()[i] == k);
                    assert(rest.contains(k));
                    if !rest.contains(ids.last()) {
                        let j = choose|j: int| 0 <= j < rest.len() && rest[j] == k;
                        assert(rest.push(ids.last())[j] == k);
                    }
                } else if !rest.contains(ids.last()) {
                    assert(rest.push(ids.last())[rest.len() as int] == k);
                }
            }
            if spec_unique(ids).contains(k) {
                if rest.contains(k) {
                    let j = choose|j: int| 0 <= j < ids.drop_last().len() && ids.drop_last()[j] == k;
                    assert(ids[j] == k);
                } else {
                    assert(k == ids.last());
                    assert(ids[ids.len() - 1] == k);
                }
            }
        }
    }
}

/// The sys_ids of the parents without repeats, in the order of the parents.
pub fn unique_parent_sys_ids(parents: &[Record]) -> (r: Vec<String>)
    ensures
        strings_view(r@) == spec_unique(sys_ids_of(parents@)),
{
    let mut out: Vec<String> = Vec::new();
    let n = parents.len();
    let mut i: usize = 0;
    assert(sys_ids_of(parents@).take(0) =~= Seq::<Seq<char>>::empty());
    while i < n
        invariant
            0 <= i <= n == parents@.len(),
            strings_view(out@) == spec_unique(sys_ids_of(parents@).take(i as int)),
        decreases n - i,
    {
        let id = parents[i].sys_id_str();
        proof {
            assert(sys_ids_of(parents@).take(i + 1).drop_last() =~= sys_ids_of(parents@).take(i as int));
            assert(sys_ids_of(parents@).take(i + 1).last() == parents@[i as int].spec_sys_id());
        }
        if !contains_string(out.as_slice(), id) {
            let ghost prev = out@;
            out.push(owned(id));
            assert(strings_view(out@) =~= strings_view(prev).push(id@));
        }
        i = i + 1;
    }
    assert(sys_ids_of(parents@).take(n as int) =~= sys_ids_of(parents@));
    out
}

/// The ids without repeats, each where it first occurs.
pub fn unique_ids(items: &[&str]) -> (r: Vec<String>)
    ensures
        strings_view(r@) == spec_unique(strs_view(items@)),
{
    let ghost ids = strs_view(items@);
    let mut out: Vec<String> = Vec::new();
    let n = items.len();
    let mut i: usize = 0;
    assert(ids.take(0) =~= Seq::<Seq<char>>::empty());
    while i < n
        invariant
            0 <= i <= n == items@.len(),
            ids == strs_view(items@),
            strings_view(out@) == spec_unique(ids.take(i as int)),
        decreases n - i,
    {
        let id = items[i];
        assert(ids.take(i + 1).drop_last() =~= ids.take(i as int));
        assert(ids.take(i + 1).last() == id@);
        if !contains_string(out.as_slice(), id) {
            let ghost prev = out@;
            out.push(owned(id));
            assert(strings_view(out@) =~= strings_view(prev).push(id@));
        }
        i = i + 1;
    }
    assert(ids.take(n as int) =~= ids);
    out
}

/// The start of chunk `i`.
pub open spec fn chunk_start(i: int) -> int {
    100 * i
}

/// The end of chunk `i` in a list of `n` ids.
pub open spec fn chunk_end(i: int, n: int) -> int {
    if 100 * i + 100 <= n {
        100 * i + 100
    } else {
        n
    }
}

/// How many chunks a list of `n` ids makes.
pub open spec fn chunk_count(n: int) -> int {
    (n + 99) / 100
}

/// The ids split into runs of at most 100, each run joined with commas.
pub fn parent_id_chunks(parent_sys_ids: &[String]) -> (r: Vec<String>)
    ensures
        r@.len() == chunk_count(parent_sys_ids@.len() as int),
        forall|i: int| 0 <= i < r@.len() ==> (#[trigger] r@[i])@ == spec_join(
            strings_view(parent_sys_ids@).subrange(chunk_start(i), chunk_end(i, parent_sys_ids@.len() as int)),
            ","@,
        ),
{
    let n = parent_sys_ids.len();
    let mut out: Vec<String> = Vec::new();
    let mut start: usize = 0;
    while start < n
        invariant
            start <= n == parent_sys_ids@.len(),
            start == 100 * out@.len() || (start == n && 100 * out@.len() > n),
            out@.len() == 0 || 100 * (out@.len() - 1) < n,
            forall|i: int| 0 <= i < out@.len() ==> (#[trigger] out@[i])@ == spec_join(
                strings_view(parent_sys_ids@).subrange(chunk_start(i), chunk_end(i, n as int)),
                ","@,
            ),
        decreases n - start,
    {
        let end = if n - start >= RELATED_QUERY_CHUNK_SIZE {
            start + RELATED_QUERY_CHUNK_SIZE
        } else {
            n
        };
        let chunk = join_range(parent_sys_ids, start, end, ",");
        let ghost k = out@.len() as int;
        assert(chunk_start(k) == start);
        assert(chunk_end(k, n as int) == end);
        out.push(chunk);
        start = end;
    }
    proof {
        let c = out@.len() as int;
        assert(c == chunk_count(n as int)) by (nonlinear_arith)
            requires
                c * 100 >= n,
                c * 100 < n + 100,
                n >= 0,
                c >= 0,
        ;
    }
    out
}

/// The chunks of a list of ids split it in order: each chunk holds between
/// one and 100 ids, each starts where the previous one ended, and the last
/// ends at the end of the list.
pub proof fn law_chunks_partition(n: int)
    requires
        n >= 0,
    ensures
        forall|i: int| 0 <= i < chunk_count(n) ==> 0 < #[trigger] chunk_end(i, n) - chunk_start(i) <= 100,
        forall|i: int| 0 <= i < chunk_count(n) ==> #[trigger] chunk_start(i) <= n,
        forall|i: int| 0 < i < chunk_count(n) ==> #[trigger] chunk_start(i) == chunk_end(i - 1, n),
        chunk_count(n) > 0 ==> chunk_end(chunk_count(n) - 1, n) == n,
        chunk_count(n) == 0 <==> n == 0,
{
    let c = chunk_count(n);
    assert(c * 100 >= n && c * 100 < n + 100) by (nonlinear_arith)
        requires
            c == (n + 99) / 100,
            n >= 0,
    ;
    assert forall|i: int| 0 <= i < c implies 0 < #[trigger] chunk_end(i, n) - chunk_start(i) <= 100 && chunk_start(i) <= n by {
        assert(100 * i < n) by (nonlinear_arith)
            requires
                0 <= i,
                i < c,
                c * 100 < n + 100,
                i + 1 <= c,
        ;
    }
}

/// The display mode asked of the instance for related records: display mode
/// becomes both, so that the raw foreign key stays readable.
pub open spec fn spec_related_display(d: DisplayValue) -> DisplayValue {
    match d {
        DisplayValue::Display => DisplayValue::Both,
        other => other,
    }
}

/// The encoded query of one chunk: the foreign key `IN` the ids, and the
/// relationship's own filter after `^` when it has one.
pub open spec fn spec_chunk_query(rel: RelationshipDef, ids: Seq<char>) -> Seq<char> {
    match rel.filter {
        Some(f) => rel.foreign_key@ + "IN"@ + ids + "^"@ + f@,
        None => rel.foreign_key@ + "IN"@ + ids,
    }
}

/// The parameters of one chunk request.
pub open spec fn spec_chunk_params(rel: RelationshipDef, ids: Seq<char>, d: DisplayValue) -> Seq<(Seq<char>, Seq<char>)> {
    seq![
        ("sysparm_query"@, spec_chunk_query(rel, ids)),
        ("sysparm_display_value"@, spec_display_param(spec_related_display(d))),
        ("sysparm_exclude_reference_link"@, "true"@),
        ("sysparm_limit"@, "10000"@),
    ]
}

/// The request for one chunk of parent ids: the related table's path and its
/// parameters, capped at 10000 records.
pub fn relationship_chunk_request(sys_id_list: &str, rel_def: &RelationshipDef, display_value: DisplayValue) -> (r: (String, Vec<(String, String)>))
    ensures
        r.0@ == "/api/now/table/"@ + rel_def.table@,
        params_view(r.1@) == spec_chunk_params(*rel_def, sys_id_list@, display_value),
{
    let mut query = owned(rel_def.foreign_key.as_str());
    push_str(&mut query, "IN");
    push_str(&mut query, sys_id_list);
    match &rel_def.filter {
        Some(f) => {
            push_str(&mut query, "^");
            push_str(&mut query, f.as_str());
        },
        None => {},
    }
    let path = concat("/api/now/table/", rel_def.table.as_str());
    let shown = match display_value {
        DisplayValue::Display => DisplayValue::Both,
        other => other,
    };
    let params = vec![
        (owned("sysparm_query"), query),
        (owned("sysparm_display_value"), owned(shown.as_param())),
        (owned("sysparm_exclude_reference_link"), owned("true")),
        (owned("sysparm_limit"), owned("10000")),
    ];
    assert(params_view(params@) =~= spec_chunk_params(*rel_def, sys_id_list@, display_value));
    (path, params)
}

/// Whether `rec` is the record that the object `m` gives for `table` in `mode`.
pub open spec fn record_from(rec: Record, table: Seq<char>, m: Seq<(String, JsonValue)>, mode: DisplayValue) -> bool {
    &&& rec.spec_table() == table
    &&& rec.spec_sys_id() == spec_record_sys_id(m)
    &&& rec.spec_fields() == spec_fields_of(m, mode)
    &&& rec.spec_related() == Map::<Seq<char>, Seq<Record>>::empty()
}

/// The objects among a list of JSON values, in order.
pub open spec fn spec_objects(items: Seq<JsonValue>) -> Seq<Seq<(String, JsonValue)>>
    decreases items.len(),
{
    if items.len() == 0 {
        Seq::empty()
    } else {
        let rest = spec_objects(items.drop_last());
        match items.last() {
            JsonValue::Object(m) => rest.push(m@),
            _ => rest,
        }
    }
}

/// The objects of a `result` that is an array; none for any other value.
pub open spec fn spec_result_objects(result: JsonValue) -> Seq<Seq<(String, JsonValue)>> {
    match result {
        JsonValue::Array(items) => spec_objects(items@),
        _ => Seq::empty(),
    }
}

/// The records of a list `result`: one per object of the array, in order;
/// other items are skipped, and a result that is not an array gives none.
pub fn records_from_result(table: &str, result: JsonValue, mode: DisplayValue) -> (r: Vec<Record>)
    ensures
        r@.len() == spec_result_objects(result).len(),
        forall|i: int| 0 <= i < r@.len() ==> record_from(#[trigger] r@[i], table@, spec_result_objects(result)[i], mode),
{
    let mut out: Vec<Record> = Vec::new();
    match result {
        JsonValue::Array(items) => {
            let ghost all = items@;
            let mut rest = items;
            let n = rest.len();
            let mut i: usize = 0;
            assert(all.skip(0) =~= all);
            assert(all.take(0) =~= Seq::<JsonValue>::empty());
            while i < n
                invariant
                    0 <= i <= n == all.len(),
                    rest@ == all.skip(i as int),
                    out@.len() == spec_objects(all.take(i as int)).len(),
                    forall|j: int| 0 <= j < out@.len() ==> record_from(#[trigger] out@[j], table@, spec_objects(all.take(i as int))[j], mode),
                decreases n - i,
            {
                let item = rest.remove(0);
                assert(all.take(i + 1).drop_last() =~= all.take(i as int));
                assert(all.take(i + 1).last() == all[i as int]);
                assert(rest@ =~= all.skip(i + 1));
                let ghost objs = spec_objects(all.take(i as int));
                let ghost prev = out@;
                match Record::from_json(table, item, mode) {
                    Some(rec) => {
                        out.push(rec);
                        assert forall|j: int| 0 <= j < out@.len() implies record_from(#[trigger] out@[j], table@, spec_objects(all.take(i + 1))[j], mode) by {
                            if j < prev.len() {
                                assert(out@[j] == prev[j]);
                            }
                        }
                    },
                    None => {},
                }
                i = i + 1;
            }
            assert(all.take(n as int) =~= all);
        },
        _ => {},
    }
    out
}

/// The value by which a related record names its parent: the raw string
/// value of the foreign key, else its string form, else empty.
pub open spec fn spec_fk_value(rec: Record, fk: Seq<char>) -> Seq<char> {
    if rec.spec_fields().contains_key(fk) {
        let f: FieldView = rec.spec_fields()[fk];
        match spec_raw_str(f.0) {
            Some(s) => s,
            None => match spec_field_str(f) {
                Some(s) => s,
                None => Seq::empty(),
            },
        }
    } else {
        Seq::empty()
    }
}

/// The records that name `id` as their parent, in order.
pub open spec fn spec_children(rs: Seq<Record>, fk: Seq<char>, id: Seq<char>) -> Seq<Record>
    decreases rs.len(),
{
    if rs.len() == 0 {
        Seq::empty()
    } else {
        let rest = spec_children(rs.drop_last(), fk, id);
        if spec_fk_value(rs.last(), fk) == id {
            rest.push(rs.last())
        } else {
            rest
        }
    }
}

/// The foreign-key value of a related record.
pub fn foreign_key_value(rec: &Record, fk: &str) -> (r: String)
    ensures
        r@ == spec_fk_value(*rec, fk@),
{
    match rec.get_raw(fk) {
        Some(s) => owned(s),
        None => match rec.get_str(fk) {
            Some(s) => owned(s),
            None => String::new(),
        },
    }
}

/// Related records grouped by the parent they name, each group in order.
pub fn group_by_parent(related: Vec<Record>, fk: &str) -> (r: StrMap<Vec<Record>>)
    ensures
        forall|id: Seq<char>| #[trigger] r@.contains_key(id) <==> spec_children(related@, fk@, id).len() > 0,
        forall|id: Seq<char>| #[trigger] r@.contains_key(id) ==> r@[id]@ == spec_children(related@, fk@, id),
{
    let ghost all = related@;
    let mut rest = related;
    let mut by_parent: StrMap<Vec<Record>> = StrMap::new();
    let n = rest.len();
    let mut i: usize = 0;
    assert(all.skip(0) =~= all);
    while i < n
        invariant
            0 <= i <= n == all.len(),
            rest@ == all.skip(i as int),
            forall|id: Seq<char>| #[trigger] by_parent@.contains_key(id) <==> spec_children(all.take(i as int), fk@, id).len() > 0,
            forall|id: Seq<char>| #[trigger] by_parent@.contains_key(id) ==> by_parent@[id]@ == spec_children(all.take(i as int), fk@, id),
        decreases n - i,
    {
        let rec = rest.remove(0);
        assert(rest@ =~= all.skip(i + 1));
        assert(all.take(i + 1).drop_last() =~= all.take(i as int));
        assert(all.take(i + 1).last() == all[i as int]);
        let key = foreign_key_value(&rec, fk);
        let ghost kv = key@;
        let ghost prev = by_parent@;
        match by_parent.remove(key.as_str()) {
            Some(mut group) => {
                group.push(rec);
                by_parent.insert(key, group);
            },
            None => {
                by_parent.insert(key, vec![rec]);
            },
        }
        proof {
            assert forall|id: Seq<char>| #[trigger] by_parent@.contains_key(id) <==> spec_children(all.take(i + 1), fk@, id).len() > 0 by {
                if id != kv {
                    assert(prev.contains_key(id) == by_parent@.contains_key(id));
                }
            }
            assert forall|id: Seq<char>| #[trigger] by_parent@.contains_key(id) implies by_parent@[id]@ == spec_children(all.take(i + 1), fk@, id) by {
                if id == kv {
                    if !prev.contains_key(id) {
                        assert(spec_children(all.take(i as int), fk@, id).len() == 0);
                        assert(spec_children(all.take(i + 1), fk@, id) =~= seq![all[i as int]]);
                    }
                }
            }
        }
        i = i + 1;
    }
    assert(all.take(n as int) =~= all);
    by_parent
}

/// Whether the parent at `i` is the first of the parents with its sys_id.
pub open spec fn first_with_id(ps: Seq<Record>, i: int) -> bool {
    forall|j: int| 0 <= j < i ==> ps[j].spec_sys_id() != ps[i].spec_sys_id()
}

/// What attaching does to the parent at `i`: the first parent with a given
/// sys_id receives, under the relationship name, the related records that name
/// it, when there are any; every other parent is left as it was.
pub open spec fn spec_attached(ps: Seq<Record>, i: int, rel: Seq<char>, fk: Seq<char>, related: Seq<Record>, out: Record) -> bool {
    let p = ps[i];
    let children = spec_children(related, fk, p.spec_sys_id());
    if first_with_id(ps, i) && children.len() > 0 {
        &&& out.spec_table() == p.spec_table()
        &&& out.spec_sys_id() == p.spec_sys_id()
        &&& out.spec_fields() == p.spec_fields()
        &&& out.spec_related() == p.spec_related().insert(rel, children)
    } else {
        out == p
    }
}

/// Distribute the related records of one relationship to their parents.
pub fn attach_related(parents: Vec<Record>, rel_name: &str, foreign_key: &str, related: Vec<Record>) -> (r: Vec<Record>)
    ensures
        r@.len() == parents@.len(),
        forall|i: int| 0 <= i < r@.len() ==> spec_attached(parents@, i, rel_name@, foreign_key@, related@, #[trigger] r@[i]),
{
    let ghost rel_all = related@;
    let mut by_parent = group_by_parent(related, foreign_key);
    let ghost init = by_parent@;
    let ghost ps = parents@;
    let mut rest = parents;
    let mut out: Vec<Record> = Vec::new();
    let n = rest.len();
    let mut i: usize = 0;
    assert(ps.skip(0) =~= ps);
    while i < n
        invariant
            0 <= i <= n == ps.len(),
            rest@ == ps.skip(i as int),
            out@.len() == i,
            forall|id: Seq<char>| #[trigger] init.contains_key(id) <==> spec_children(rel_all, foreign_key@, id).len() > 0,
            forall|id: Seq<char>| #[trigger] init.contains_key(id) ==> init[id]@ == spec_children(rel_all, foreign_key@, id),
            forall|id: Seq<char>| #[trigger] by_parent@.contains_key(id) <==> (init.contains_key(id) && forall|j: int|
                0 <= j < i ==> ps[j].spec_sys_id() != id),
            forall|id: Seq<char>| #[trigger] by_parent@.contains_key(id) ==> by_parent@[id] == init[id],
            forall|j: int| 0 <= j < i ==> spec_attached(ps, j, rel_name@, foreign_key@, rel_all, #[trigger] out@[j]),
        decreases n - i,
    {
        let mut p = rest.remove(0);
        assert(rest@ =~= ps.skip(i + 1));
        assert(p == ps[i as int]);
        let ghost id = p.spec_sys_id();
        let ghost prev_map = by_parent@;
        let ghost prev_out = out@;
        let removed = by_parent.remove(p.sys_id_str());
        match removed {
            Some(children) => {
                p.set_related(rel_name, children);
            },
            None => {},
        }
        out.push(p);
        proof {
            assert forall|id2: Seq<char>| #[trigger] by_parent@.contains_key(id2) <==> (init.contains_key(id2) && forall|j: int|
                0 <= j < i + 1 ==> ps[j].spec_sys_id() != id2) by {
                if id2 != id {
                    if init.contains_key(id2) && (forall|j: int| 0 <= j < i ==> ps[j].spec_sys_id() != id2) {
                        assert forall|j: int| 0 <= j < i + 1 implies ps[j].spec_sys_id() != id2 by {
                            if j == i {
                                assert(ps[j].spec_sys_id() == id);
                            }
                        }
                    }
                } else {
                    assert(ps[i as int].spec_sys_id() == id2);
                }
            }
            assert forall|j: int| 0 <= j < i + 1 implies spec_attached(ps, j, rel_name@, foreign_key@, rel_all, #[trigger] out@[j]) by {
                if j < i {
                    assert(out@[j] == prev_out[j]);
                } else {
                    if first_with_id(ps, i as int) && spec_children(rel_all, foreign_key@, id).len() > 0 {
                        assert(init.contains_key(id));
                        assert(prev_map.contains_key(id));
                    } else if prev_map.contains_key(id) {
                        assert(init.contains_key(id));
                        assert(first_with_id(ps, i as int));
                    }
                }
            }
        }
        i = i + 1;
    }
    out
}

} // verus!
