//! Paging through large result sets: which page to ask for next, and when
//! the pages are exhausted.

use vstd::prelude::*;
use crate::error::Error;
use crate::model::json::JsonValue;
use crate::model::record::Record;
use crate::model::value::DisplayValue;
use crate::query::batch::{record_from, records_from_result, spec_result_objects};
use crate::query::builder::{plan_related, spec_related_plan};
use crate::query::params::{params_view, push_param};
use crate::query::strategy::FetchStrategy;
use crate::schema::definition::RelationshipDef;
use crate::schema::registry::SchemaRegistry;
use crate::text::{concat, decimal_string, spec_decimal, strings_view};

verus! {

/// The state of a paginator as plain values.
#[verifier::ext_equal]
pub struct PaginatorView {
    pub path: Seq<char>,
    pub base_params: Seq<(Seq<char>, Seq<char>)>,
    pub page_size: u32,
    pub current_offset: u32,
    pub total_count: Option<u64>,
    pub display_value: DisplayValue,
    pub table: Seq<char>,
    pub related: Seq<Seq<char>>,
    pub strategy: FetchStrategy,
    pub done: bool,
}

/// Pagination state for iterating through a large result set one page at a time.
///
/// The request of each page and the reading of its answer are the caller's;
/// this type decides which page comes next and when there are no more.
#[derive(Debug)]
pub struct Paginator {
    path: String,
    base_params: Vec<(String, String)>,
    page_size: u32,
    current_offset: u32,
    total_count: Option<u64>,
    display_value: DisplayValue,
    table: String,
    related: Vec<String>,
    strategy: FetchStrategy,
    done: bool,
}

/// Whether a paginator that is not done still has records ahead of it: the
/// total, once known, lies beyond the offset.
pub open spec fn spec_within_total(v: PaginatorView) -> bool {
    !v.done ==> match v.total_count {
        Some(t) => (v.current_offset as int) < t,
        None => true,
    }
}

impl View for Paginator {
    type V = PaginatorView;

    closed spec fn view(&self) -> PaginatorView {
        PaginatorView {
            path: self.path@,
            base_params: params_view(self.base_params@),
            page_size: self.page_size,
            current_offset: self.current_offset,
            total_count: self.total_count,
            display_value: self.display_value,
            table: self.table@,
            related: strings_view(self.related@),
            strategy: self.strategy,
            done: self.done,
        }
    }
}

/// The parameters of the page at `v`'s offset: the base parameters, then the
/// page size as `sysparm_limit` and the offset as `sysparm_offset`.
pub open spec fn spec_page_params(v: PaginatorView) -> Seq<(Seq<char>, Seq<char>)> {
    v.base_params.push(("sysparm_limit"@, spec_decimal(v.page_size as nat))).push(
        ("sysparm_offset"@, spec_decimal(v.current_offset as nat)),
    )
}

/// How far the offset moves after a page of `count` records: past the page's
/// records; past a whole page when the page was short but the answer links a
/// next page, as the instance does when it withholds rows it counted.
pub open spec fn spec_page_advance(page_size: u32, count: nat, has_next: bool) -> nat {
    if has_next && count < page_size {
        page_size as nat
    } else {
        count
    }
}

/// The state after a page of `count` records was read, with the total that
/// the answer reported, if any, and whether it linked a next page.
///
/// The offset moves past the page; a reported total replaces the known one;
/// the pages end when the page was empty, when it was short and no next page
/// was linked, or when the offset reaches the known total.
pub open spec fn spec_after_page(v: PaginatorView, total_count: Option<u64>, count: nat, has_next: bool) -> PaginatorView {
    let total = match total_count {
        Some(t) => Some(t),
        None => v.total_count,
    };
    let offset = (v.current_offset + spec_page_advance(v.page_size, count, has_next)) as u32;
    let past_total = match total {
        Some(t) => offset as int >= t,
        None => false,
    };
    PaginatorView {
        current_offset: offset,
        total_count: total,
        done: v.done || (count < v.page_size && !has_next) || past_total || count == 0,
        ..v
    }
}

impl Paginator {
    #[verifier::type_invariant]
    spec fn within_total(self) -> bool {
        spec_within_total(self@)
    }

    /// A paginator over `table` from `initial_offset`, `page_size` records a page.
    pub fn new(
        table: &str,
        base_params: Vec<(String, String)>,
        page_size: u32,
        initial_offset: u32,
        display_value: DisplayValue,
        related: Vec<String>,
        strategy: FetchStrategy,
    ) -> (r: Self)
        ensures
            r@ == (PaginatorView {
                path: "/api/now/table/"@ + table@,
                base_params: params_view(base_params@),
                page_size,
                current_offset: initial_offset,
                total_count: None,
                display_value,
                table: table@,
                related: strings_view(related@),
                strategy,
                done: false,
            }),
    {
        Paginator {
            path: concat("/api/now/table/", table),
            base_params,
            page_size,
            current_offset: initial_offset,
            total_count: None,
            display_value,
            table: crate::text::owned(table),
            related,
            strategy,
            done: false,
        }
    }

    /// The request of the next page, path and parameters; `None` once the
    /// pages are exhausted. A page is only asked for below a known total.
    pub fn page_request(&self) -> (r: Option<(String, Vec<(String, String)>)>)
        ensures
            self@.done <==> r.is_none(),
            match r {
                Some((path, params)) => {
                    &&& path@ == self@.path
                    &&& params_view(params@) == spec_page_params(self@)
                    &&& match self@.total_count {
                        Some(t) => (self@.current_offset as int) < t,
                        None => true,
                    }
                },
                None => true,
            },
    {
        proof {
            use_type_invariant(self);
        }
        if self.done {
            return None;
        }
        let mut params: Vec<(String, String)> = Vec::new();
        let n = self.base_params.len();
        let mut i: usize = 0;
        while i < n
            invariant
                0 <= i <= n == self.base_params@.len(),
                params_view(params@) == params_view(self.base_params@).take(i as int),
            decreases n - i,
        {
            let (k, v) = &self.base_params[i];
            push_param(&mut params, k.as_str(), v.clone());
            i = i + 1;
            assert(params_view(params@) =~= params_view(self.base_params@).take(i as int));
        }
        assert(params_view(self.base_params@).take(n as int) =~= params_view(self.base_params@));
        push_param(&mut params, "sysparm_limit", decimal_string(self.page_size as u64));
        push_param(&mut params, "sysparm_offset", decimal_string(self.current_offset as u64));
        Some((self.path.clone(), params))
    }

    /// Take note of a page of `count` records whose answer reported
    /// `total_count` and linked a next page when `has_next`; answers whether
    /// the page is to be handed out, that is whether it holds any record.
    pub fn record_page(&mut self, total_count: Option<u64>, count: usize, has_next: bool) -> (r: bool)
        requires
            old(self)@.current_offset + spec_page_advance(old(self)@.page_size, count as nat, has_next) <= u32::MAX,
        ensures
            final(self)@ == spec_after_page(old(self)@, total_count, count as nat, has_next),
            r == (count > 0),
    {
        proof {
            use_type_invariant(&*self);
        }
        let was_done = self.done;
        self.done = true;
        match total_count {
            Some(tc) => {
                self.total_count = Some(tc);
            },
            None => {},
        }
        let short = (count as u64) < (self.page_size as u64);
        let advance: u32 = if has_next && short {
            self.page_size
        } else {
            count as u32
        };
        self.current_offset = self.current_offset + advance;
        let past_total = match self.total_count {
            Some(total) => self.current_offset as u64 >= total,
            None => false,
        };
        self.done = was_done || (short && !has_next) || past_total || count == 0;
        count > 0
    }

    /// Whether a page of `count` records, with a next page linked when
    /// `has_next`, can be taken note of: the offset it moves to still fits
    /// in a `u32`.
    pub fn can_record_page(&self, count: usize, has_next: bool) -> (r: bool)
        ensures
            r == (self@.current_offset + spec_page_advance(self@.page_size, count as nat, has_next) <= u32::MAX),
    {
        let short = (count as u64) < (self.page_size as u64);
        let advance: u64 = if has_next && short {
            self.page_size as u64
        } else {
            count as u64
        };
        if advance > u32::MAX as u64 {
            false
        } else {
            (self.current_offset as u64) + advance <= u32::MAX as u64
        }
    }

    /// The number of records asked for per page.
    pub fn page_size(&self) -> (r: u32)
        ensures
            r == self@.page_size,
    {
        self.page_size
    }

    /// The records of a page answer, one per object of the `result` array.
    pub fn records_from_result(&self, result: JsonValue) -> (r: Vec<Record>)
        ensures
            r@.len() == spec_result_objects(result).len(),
            forall|i: int| 0 <= i < r@.len() ==> record_from(
                #[trigger] r@[i],
                self@.table,
                spec_result_objects(result)[i],
                self@.display_value,
            ),
    {
        records_from_result(self.table.as_str(), result, self.display_value)
    }

    /// The relationships to fetch for a page of `record_count` records, and
    /// the errors known before any request.
    pub fn related_plan(&self, schema: Option<&SchemaRegistry>, record_count: usize) -> (r: (
        Vec<(String, RelationshipDef)>,
        Vec<Error>,
    ))
        ensures
            spec_related_plan(schema, self@.table, self@.related, record_count, r.0@, r.1@),
    {
        plan_related(schema, self.table.as_str(), self.related.as_slice(), record_count)
    }

    /// The total count of matching records, known after the first page.
    pub fn total_count(&self) -> (r: Option<u64>)
        ensures
            r == self@.total_count,
    {
        self.total_count
    }

    /// The offset of the next page: the records already read past the start.
    pub fn current_offset(&self) -> (r: u32)
        ensures
            r == self@.current_offset,
    {
        self.current_offset
    }

    /// Whether all pages have been read.
    pub fn is_done(&self) -> (r: bool)
        ensures
            r == self@.done,
    {
        self.done
    }

    /// The display mode of the pages.
    pub fn display_mode(&self) -> (r: DisplayValue)
        ensures
            r == self@.display_value,
    {
        self.display_value
    }

    /// The table paged through.
    pub fn table_name(&self) -> (r: &str)
        ensures
            r@ == self@.table,
    {
        self.table.as_str()
    }
}

/// Once the pages are exhausted they stay so, whatever a later page reports;
/// an empty page ends them, and so does a page shorter than the page size
/// whose answer links no next page.
pub proof fn law_pages_end(v: PaginatorView, total_count: Option<u64>, count: nat, has_next: bool)
    ensures
        v.done ==> spec_after_page(v, total_count, count, has_next).done,
        count < v.page_size && !has_next ==> spec_after_page(v, total_count, count, has_next).done,
        count == 0 ==> spec_after_page(v, total_count, count, has_next).done,
{
}

/// The pages end after a page only for one of four reasons: they had ended
/// already, the page was empty, it was short and linked no next page, or the
/// offset it moved to is at or past the known total. In particular a page
/// that moves the offset to a point still below the known total, and that is
/// full or links a next page, leaves more pages to read.
pub proof fn law_pages_end_only_when_exhausted(v: PaginatorView, total_count: Option<u64>, count: nat, has_next: bool)
    requires
        v.current_offset + spec_page_advance(v.page_size, count, has_next) <= u32::MAX,
    ensures
        spec_after_page(v, total_count, count, has_next).done <==> (v.done || count == 0 || (count
            < v.page_size && !has_next) || (spec_after_page(v, total_count, count, has_next).total_count matches Some(t)
            && spec_after_page(v, total_count, count, has_next).current_offset >= t)),
        !v.done && count > 0 && (count >= v.page_size || has_next) && (spec_after_page(
            v,
            total_count,
            count,
            has_next,
        ).total_count matches Some(t) && spec_after_page(v, total_count, count, has_next).current_offset < t)
            ==> !spec_after_page(v, total_count, count, has_next).done,
{
}

/// Reading a page moves the offset forward past the page, when that fits:
/// by its records, or by a whole page when a short page links a next one;
/// every setting of the paginator is kept.
pub proof fn law_offset_advances(v: PaginatorView, total_count: Option<u64>, count: nat, has_next: bool)
    requires
        v.current_offset + spec_page_advance(v.page_size, count, has_next) <= u32::MAX,
    ensures
        !has_next ==> spec_after_page(v, total_count, count, has_next).current_offset == v.current_offset + count,
        has_next ==> spec_after_page(v, total_count, count, has_next).current_offset == v.current_offset + (
        if count < v.page_size {
            v.page_size as nat
        } else {
            count
        }),
        spec_after_page(v, total_count, count, has_next).page_size == v.page_size,
        spec_after_page(v, total_count, count, has_next).base_params == v.base_params,
        spec_after_page(v, total_count, count, has_next).path == v.path,
{
}

/// The records collected after a page: all of them, cut to `max` when a
/// cap is given.
pub open spec fn spec_capped(collected: Seq<Record>, page: Seq<Record>, max: Option<usize>) -> Seq<Record> {
    let all = collected + page;
    match max {
        Some(m) => if all.len() > m {
            all.take(m as int)
        } else {
            all
        },
        None => all,
    }
}

/// Add a page's records to those collected, keeping at most `max` in all;
/// answers whether the cap is reached, after which no further page is read.
pub fn append_capped(collected: &mut Vec<Record>, page: Vec<Record>, max: Option<usize>) -> (full: bool)
    ensures
        final(collected)@ == spec_capped(old(collected)@, page@, max),
        full == (match max {
            Some(m) => old(collected)@.len() + page@.len() >= m,
            None => false,
        }),
{
    let mut rest = page;
    collected.append(&mut rest);
    match max {
        Some(m) => {
            let full = collected.len() >= m;
            collected.truncate(m);
            full
        },
        None => false,
    }
}

} // verus!
