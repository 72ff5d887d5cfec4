//! Typed reading of `task_sla` rows: stages, flags and times.
//!
//! Missing fields, empty strings and values of an unexpected shape read as
//! `None`.

use vstd::prelude::*;
use std::cmp::Ordering;
use crate::model::json::JsonValue;
use crate::model::record::Record;
use crate::model::value::{opt_str_view, opt_view, spec_raw_str, FieldView};
use crate::text::{
    lemma_lex_total, lemma_lex_transitive, owned, spec_lex_lt, spec_trim, str_chars, str_eq, str_lt,
    string_from_chars, trim_str,
};

verus! {

/// A Task SLA stage. Instances can define their own stages: an unknown
/// non-empty value is kept, trimmed, as `Other`.
#[derive(Debug, Clone)]
pub enum TaskSlaStage {
    /// The SLA clock is running.
    InProgress,
    /// The SLA clock is paused.
    Paused,
    /// The SLA has completed.
    Completed,
    /// The SLA has been cancelled.
    Cancelled,
    /// A customer-defined or otherwise unrecognized stage value.
    Other(String),
}

/// Stages compared by variant, and `Other` stages by their text.
pub open spec fn spec_stage_eq(a: TaskSlaStage, b: TaskSlaStage) -> bool {
    match (a, b) {
        (TaskSlaStage::InProgress, TaskSlaStage::InProgress) => true,
        (TaskSlaStage::Paused, TaskSlaStage::Paused) => true,
        (TaskSlaStage::Completed, TaskSlaStage::Completed) => true,
        (TaskSlaStage::Cancelled, TaskSlaStage::Cancelled) => true,
        (TaskSlaStage::Other(x), TaskSlaStage::Other(y)) => x@ == y@,
        _ => false,
    }
}

impl PartialEq for TaskSlaStage {
    fn eq(&self, other: &Self) -> (r: bool) {
        match (self, other) {
            (TaskSlaStage::InProgress, TaskSlaStage::InProgress) => true,
            (TaskSlaStage::Paused, TaskSlaStage::Paused) => true,
            (TaskSlaStage::Completed, TaskSlaStage::Completed) => true,
            (TaskSlaStage::Cancelled, TaskSlaStage::Cancelled) => true,
            (TaskSlaStage::Other(x), TaskSlaStage::Other(y)) => str_eq(x.as_str(), y.as_str()),
            _ => false,
        }
    }
}

impl vstd::std_specs::cmp::PartialEqSpecImpl for TaskSlaStage {
    open spec fn obeys_eq_spec() -> bool {
        true
    }

    open spec fn eq_spec(&self, other: &Self) -> bool {
        spec_stage_eq(*self, *other)
    }
}

/// ASCII lower-casing of one character.
pub open spec fn ascii_lower_char(c: char) -> char {
    if 'A' <= c && c <= 'Z' {
        (((c as u32) + 32) as u8) as char
    } else {
        c
    }
}

/// A stage value made comparable: spaces and hyphens become underscores, ASCII letters lower case.
pub open spec fn spec_stage_key(s: Seq<char>) -> Seq<char> {
    s.map_values(|c: char| if c == ' ' || c == '-' { '_' } else { ascii_lower_char(c) })
}

/// The stage a raw or display value names, `None` when it is blank.
pub open spec fn spec_stage_of(value: Seq<char>) -> Option<TaskSlaStage> {
    let t = spec_trim(value);
    let k = spec_stage_key(t);
    if t.len() == 0 {
        None
    } else if k == "in_progress"@ || k == "inprogress"@ {
        Some(TaskSlaStage::InProgress)
    } else if k == "paused"@ || k == "pause"@ {
        Some(TaskSlaStage::Paused)
    } else if k == "completed"@ || k == "complete"@ {
        Some(TaskSlaStage::Completed)
    } else if k == "cancelled"@ || k == "canceled"@ {
        Some(TaskSlaStage::Cancelled)
    } else {
        None
    }
}

/// Whether a stage is what a value names: a known stage by its normalized
/// key; any other non-blank value as `Other` with the trimmed text.
pub open spec fn spec_stage_is(value: Seq<char>, r: Option<TaskSlaStage>) -> bool {
    let t = spec_trim(value);
    if t.len() == 0 {
        r.is_none()
    } else {
        match spec_stage_of(value) {
            Some(s) => r == Some(s),
            None => r matches Some(TaskSlaStage::Other(x)) && x@ == t,
        }
    }
}

/// Each known stage reads from every spelling ServiceNow writes it in, in any
/// ASCII case, with spaces or hyphens for underscores and blanks around it:
/// `in_progress` / `inprogress`, `paused` / `pause`, `completed` / `complete`,
/// and both `cancelled` and `canceled`; the completed and cancelled ones are
/// the final stages.
pub proof fn law_stage_spellings(value: Seq<char>)
    ensures
        ({
            let k = spec_stage_key(spec_trim(value));
            &&& (k == "in_progress"@ || k == "inprogress"@) ==> spec_stage_of(value) == Some(TaskSlaStage::InProgress)
            &&& (k == "paused"@ || k == "pause"@) ==> spec_stage_of(value) == Some(TaskSlaStage::Paused)
            &&& (k == "completed"@ || k == "complete"@) ==> spec_stage_of(value) == Some(TaskSlaStage::Completed)
            &&& (k == "cancelled"@ || k == "canceled"@) ==> spec_stage_of(value) == Some(TaskSlaStage::Cancelled)
            &&& (k == "completed"@ || k == "complete"@ || k == "cancelled"@ || k == "canceled"@) ==> (
            spec_stage_of(value) matches Some(st) && (st is Completed || st is Cancelled))
        }),
{
    reveal_strlit("in_progress");
    reveal_strlit("inprogress");
    reveal_strlit("paused");
    reveal_strlit("pause");
    reveal_strlit("completed");
    reveal_strlit("complete");
    reveal_strlit("cancelled");
    reveal_strlit("canceled");
    let t = spec_trim(value);
    let k = spec_stage_key(t);
    assert(k.len() == t.len());
    if k == "cancelled"@ || k == "canceled"@ {
        assert(k[0] == 'c');
        assert(k[1] == 'a');
    }
    if k == "completed"@ || k == "complete"@ {
        assert(k[0] == 'c');
        assert(k[1] == 'o');
    }
    if k == "paused"@ || k == "pause"@ {
        assert(k[0] == 'p');
    }
}

fn stage_key(t: &str) -> (r: String)
    ensures
        r@ == spec_stage_key(t@),
{
    let v = str_chars(t);
    let mut out: Vec<char> = Vec::new();
    let mut i: usize = 0;
    while i < v.len()
        invariant
            0 <= i <= v@.len(),
            v@ == t@,
            out@ == spec_stage_key(v@.take(i as int)),
        decreases v@.len() - i,
    {
        let c = v[i];
        let d = if c == ' ' || c == '-' {
            '_'
        } else if 'A' <= c && c <= 'Z' {
            ((c as u32) + 32) as u8 as char
        } else {
            c
        };
        out.push(d);
        i = i + 1;
        assert(out@ =~= spec_stage_key(v@.take(i as int)));
    }
    assert(v@.take(v@.len() as int) =~= v@);
    string_from_chars(&out)
}

impl TaskSlaStage {
    /// Read a raw or display stage value.
    pub fn from_service_now(value: &str) -> (r: Option<Self>)
        ensures
            spec_stage_is(value@, r),
    {
        let trimmed = trim_str(value);
        if trimmed.is_empty() {
            return None;
        }
        let k = stage_key(trimmed);
        let key = k.as_str();
        if str_eq(key, "in_progress") || str_eq(key, "inprogress") {
            Some(TaskSlaStage::InProgress)
        } else if str_eq(key, "paused") || str_eq(key, "pause") {
            Some(TaskSlaStage::Paused)
        } else if str_eq(key, "completed") || str_eq(key, "complete") {
            Some(TaskSlaStage::Completed)
        } else if str_eq(key, "cancelled") || str_eq(key, "canceled") {
            Some(TaskSlaStage::Cancelled)
        } else {
            Some(TaskSlaStage::Other(owned(trimmed)))
        }
    }

    /// Whether the stage is final: completed or cancelled.
    pub fn is_terminal(&self) -> (r: bool)
        ensures
            r == (*self is Completed || *self is Cancelled),
    {
        match self {
            TaskSlaStage::Completed | TaskSlaStage::Cancelled => true,
            _ => false,
        }
    }
}

/// A flag written as text: `true`, `1`, `yes`, `y` and `false`, `0`, `no`,
/// `n`, in any ASCII case and with surrounding whitespace.
pub open spec fn spec_bool_text(value: Seq<char>) -> Option<bool> {
    let k = spec_trim(value).map_values(|c: char| ascii_lower_char(c));
    if k == "true"@ || k == "1"@ || k == "yes"@ || k == "y"@ {
        Some(true)
    } else if k == "false"@ || k == "0"@ || k == "no"@ || k == "n"@ {
        Some(false)
    } else {
        None
    }
}

fn ascii_lowercase(t: &str) -> (r: String)
    ensures
        r@ == t@.map_values(|c: char| ascii_lower_char(c)),
{
    let v = str_chars(t);
    let mut out: Vec<char> = Vec::new();
    let mut i: usize = 0;
    while i < v.len()
        invariant
            0 <= i <= v@.len(),
            v@ == t@,
            out@ == v@.take(i as int).map_values(|c: char| ascii_lower_char(c)),
        decreases v@.len() - i,
    {
        let c = v[i];
        let d = if 'A' <= c && c <= 'Z' {
            ((c as u32) + 32) as u8 as char
        } else {
            c
        };
        out.push(d);
        i = i + 1;
        assert(out@ =~= v@.take(i as int).map_values(|c: char| ascii_lower_char(c)));
    }
    assert(v@.take(v@.len() as int) =~= v@);
    string_from_chars(&out)
}

/// Read a flag written as text.
pub fn parse_bool_str(value: &str) -> (r: Option<bool>)
    ensures
        r == spec_bool_text(value@),
{
    let k = ascii_lowercase(trim_str(value));
    let key = k.as_str();
    if str_eq(key, "true") || str_eq(key, "1") || str_eq(key, "yes") || str_eq(key, "y") {
        Some(true)
    } else if str_eq(key, "false") || str_eq(key, "0") || str_eq(key, "no") || str_eq(key, "n") {
        Some(false)
    } else {
        None
    }
}

/// A flag given as a JSON value: a boolean; the number 0 or 1; a flag text.
pub open spec fn spec_json_bool(v: JsonValue) -> Option<bool> {
    match v {
        JsonValue::Bool(b) => Some(b),
        JsonValue::Number(n) => if n@ == "0"@ {
            Some(false)
        } else if n@ == "1"@ {
            Some(true)
        } else {
            None
        },
        JsonValue::String(s) => spec_bool_text(s@),
        _ => None,
    }
}

/// Read a flag given as a JSON value.
pub fn parse_json_bool(value: &JsonValue) -> (r: Option<bool>)
    ensures
        r == spec_json_bool(*value),
{
    match value {
        JsonValue::Bool(b) => Some(*b),
        JsonValue::Number(n) => {
            if str_eq(n.as_str(), "0") {
                Some(false)
            } else if str_eq(n.as_str(), "1") {
                Some(true)
            } else {
                None
            }
        },
        JsonValue::String(s) => parse_bool_str(s.as_str()),
        _ => None,
    }
}

/// The trimmed text when it is not blank.
pub open spec fn spec_non_empty(value: Option<Seq<char>>) -> Option<Seq<char>> {
    match value {
        Some(v) => if spec_trim(v).len() > 0 {
            Some(spec_trim(v))
        } else {
            None
        },
        None => None,
    }
}

/// The trimmed text when it is not blank.
pub fn non_empty_str(value: Option<&str>) -> (r: Option<&str>)
    ensures
        opt_str_view(r) == spec_non_empty(opt_str_view(value)),
{
    match value {
        Some(v) => {
            let t = trim_str(v);
            if t.is_empty() {
                None
            } else {
                Some(t)
            }
        },
        None => None,
    }
}

/// Order two planned end times, each trimmed, a blank or missing one after
/// any other: two present times by their text, which orders ServiceNow's
/// `YYYY-MM-DD HH:MM:SS` as time does.
pub fn compare_planned_end_time(a: Option<&str>, b: Option<&str>) -> (r: Ordering)
    ensures
        match (spec_non_empty(opt_str_view(a)), spec_non_empty(opt_str_view(b))) {
            (Some(x), Some(y)) => {
                &&& (r == Ordering::Less) == spec_lex_lt(x, y)
                &&& (r == Ordering::Equal) == (x == y)
                &&& (r == Ordering::Greater) == spec_lex_lt(y, x)
            },
            (Some(_), None) => r == Ordering::Less,
            (None, Some(_)) => r == Ordering::Greater,
            (None, None) => r == Ordering::Equal,
        },
{
    let x = non_empty_str(a);
    let y = non_empty_str(b);
    match (x, y) {
        (Some(x), Some(y)) => {
            proof {
                lemma_lex_total(x@, y@);
            }
            if str_lt(x, y) {
                Ordering::Less
            } else if str_eq(x, y) {
                Ordering::Equal
            } else {
                Ordering::Greater
            }
        },
        (Some(_), None) => Ordering::Less,
        (None, Some(_)) => Ordering::Greater,
        (None, None) => Ordering::Equal,
    }
}

/// The trimmed text, copied, when it is not blank.
pub fn non_empty_string(value: &str) -> (r: Option<String>)
    ensures
        opt_view(r) == spec_non_empty(Some(value@)),
{
    match non_empty_str(Some(value)) {
        Some(t) => Some(owned(t)),
        None => None,
    }
}

/// A field of a record, when present.
pub open spec fn spec_field(rec: Record, field: Seq<char>) -> Option<FieldView> {
    if rec.spec_fields().contains_key(field) {
        Some(rec.spec_fields()[field])
    } else {
        None
    }
}

/// The raw string value of a field.
pub open spec fn spec_raw_of(rec: Record, field: Seq<char>) -> Option<Seq<char>> {
    match spec_field(rec, field) {
        Some(f) => spec_raw_str(f.0),
        None => None,
    }
}

/// The display value of a field.
pub open spec fn spec_display_of(rec: Record, field: Seq<char>) -> Option<Seq<char>> {
    match spec_field(rec, field) {
        Some(f) => f.1,
        None => None,
    }
}

/// The raw string value of a field, else its display value.
pub open spec fn spec_raw_or_display(rec: Record, field: Seq<char>) -> Option<Seq<char>> {
    match spec_raw_of(rec, field) {
        Some(s) => Some(s),
        None => spec_display_of(rec, field),
    }
}

/// The raw string value of a field, trimmed, when not blank.
pub fn raw_string_field(record: &Record, field: &str) -> (r: Option<String>)
    ensures
        opt_view(r) == spec_non_empty(spec_raw_of(*record, field@)),
{
    match record.get_raw(field) {
        Some(s) => non_empty_string(s),
        None => None,
    }
}

/// The display value of a field, trimmed, when not blank.
pub fn display_string_field(record: &Record, field: &str) -> (r: Option<String>)
    ensures
        opt_view(r) == spec_non_empty(spec_display_of(*record, field@)),
{
    match record.get_display(field) {
        Some(s) => non_empty_string(s),
        None => None,
    }
}

/// The raw string value of a field, else its display value, trimmed, when not blank.
pub fn string_field(record: &Record, field: &str) -> (r: Option<String>)
    ensures
        opt_view(r) == spec_non_empty(spec_raw_or_display(*record, field@)),
{
    let v = match record.get_raw(field) {
        Some(s) => Some(s),
        None => record.get_display(field),
    };
    match v {
        Some(s) => non_empty_string(s),
        None => None,
    }
}

/// The stage a field names, raw value first.
pub fn stage_field(record: &Record, field: &str) -> (r: Option<TaskSlaStage>)
    ensures
        match spec_raw_or_display(*record, field@) {
            Some(v) => spec_stage_is(v, r),
            None => r.is_none(),
        },
{
    let v = match record.get_raw(field) {
        Some(s) => Some(s),
        None => record.get_display(field),
    };
    match v {
        Some(s) => TaskSlaStage::from_service_now(s),
        None => None,
    }
}

/// A flag field: its raw value read as a flag, else its display value.
pub open spec fn spec_bool_field(rec: Record, field: Seq<char>) -> Option<bool> {
    match spec_field(rec, field) {
        Some(f) => {
            let raw = match f.0 {
                Some(v) => spec_json_bool(v),
                None => None,
            };
            match raw {
                Some(b) => Some(b),
                None => match f.1 {
                    Some(d) => spec_bool_text(d),
                    None => None,
                },
            }
        },
        None => None,
    }
}

/// Read a flag field.
pub fn bool_field(record: &Record, field: &str) -> (r: Option<bool>)
    ensures
        r == spec_bool_field(*record, field@),
{
    let fv = match record.get(field) {
        Some(f) => f,
        None => {
            return None;
        },
    };
    let raw = match &fv.value {
        Some(v) => parse_json_bool(v),
        None => None,
    };
    match raw {
        Some(b) => Some(b),
        None => match &fv.display_value {
            Some(d) => parse_bool_str(d.as_str()),
            None => None,
        },
    }
}

/// Whether a row is a candidate for the next breach: active, not breached,
/// not in a final stage, and with a planned end time that is not blank.
pub open spec fn spec_next_breach_candidate(
    active: Option<bool>,
    has_breached: Option<bool>,
    stage: Option<TaskSlaStage>,
    planned_end_time: Option<Seq<char>>,
) -> bool {
    active == Some(true) && has_breached == Some(false) && !(stage matches Some(s) && (s is Completed
        || s is Cancelled)) && spec_non_empty(planned_end_time).is_some()
}

/// Whether a row is a candidate for the next breach.
pub fn is_next_breach_candidate(
    active: Option<bool>,
    has_breached: Option<bool>,
    stage: &Option<TaskSlaStage>,
    planned_end_time: Option<&str>,
) -> (r: bool)
    ensures
        r == spec_next_breach_candidate(active, has_breached, *stage, opt_str_view(planned_end_time)),
{
    let terminal = match stage {
        Some(s) => s.is_terminal(),
        None => false,
    };
    let active_true = match active {
        Some(a) => a,
        None => false,
    };
    let unbreached = match has_breached {
        Some(b) => !b,
        None => false,
    };
    active_true && unbreached && !terminal && non_empty_str(planned_end_time).is_some()
}

/// The plain values of a Task SLA row that a summary reads.
#[derive(Debug, Clone)]
pub struct SlaStatus {
    pub active: Option<bool>,
    pub has_breached: Option<bool>,
    pub stage: Option<TaskSlaStage>,
    pub planned_end_time: Option<String>,
}

/// What a summary of Task SLA rows counts, and which row breaches next.
#[derive(Debug)]
pub struct SlaCounts {
    /// Number of rows.
    pub total: usize,
    /// Number of rows known to be active.
    pub active: usize,
    /// Number of rows known to have breached.
    pub breached: usize,
    /// The position of the candidate row with the earliest planned end time;
    /// of rows with equal times, the first.
    pub next_breach: Option<usize>,
}

/// Whether a row is a next-breach candidate.
pub open spec fn spec_status_candidate(r: SlaStatus) -> bool {
    spec_next_breach_candidate(r.active, r.has_breached, r.stage, opt_view(r.planned_end_time))
}

/// The trimmed planned end time of a row; empty when there is none.
pub open spec fn spec_status_time(r: SlaStatus) -> Seq<char> {
    match spec_non_empty(opt_view(r.planned_end_time)) {
        Some(t) => t,
        None => Seq::empty(),
    }
}

/// How many rows are known to be active.
pub open spec fn spec_count_active(rows: Seq<SlaStatus>) -> nat
    decreases rows.len(),
{
    if rows.len() == 0 {
        0
    } else {
        spec_count_active(rows.drop_last()) + if rows.last().active == Some(true) {
            1nat
        } else {
            0nat
        }
    }
}

/// How many rows are known to have breached.
pub open spec fn spec_count_breached(rows: Seq<SlaStatus>) -> nat
    decreases rows.len(),
{
    if rows.len() == 0 {
        0
    } else {
        spec_count_breached(rows.drop_last()) + if rows.last().has_breached == Some(true) {
            1nat
        } else {
            0nat
        }
    }
}

/// Whether `i` is the next breach among `rows`: a candidate whose planned end
/// time comes before that of every earlier candidate and after that of no
/// later one (times compared as text, which orders ServiceNow's
/// `YYYY-MM-DD HH:MM:SS` as time does).
pub open spec fn spec_is_next_breach(rows: Seq<SlaStatus>, i: int) -> bool {
    &&& 0 <= i < rows.len()
    &&& spec_status_candidate(rows[i])
    &&& forall|j: int| 0 <= j < i && spec_status_candidate(#[trigger] rows[j]) ==> spec_lex_lt(
        spec_status_time(rows[i]),
        spec_status_time(rows[j]),
    )
    &&& forall|j: int| i < j < rows.len() && spec_status_candidate(#[trigger] rows[j]) ==> !spec_lex_lt(
        spec_status_time(rows[j]),
        spec_status_time(rows[i]),
    )
}

fn status_time(r: &SlaStatus) -> (t: Option<&str>)
    ensures
        opt_str_view(t) == spec_non_empty(opt_view(r.planned_end_time)),
{
    let p: Option<&str> = match &r.planned_end_time {
        Some(x) => Some(x.as_str()),
        None => None,
    };
    non_empty_str(p)
}

/// Count the rows of a summary and choose the row that breaches next.
pub fn summarize_slas(rows: &[SlaStatus]) -> (r: SlaCounts)
    ensures
        r.total == rows@.len(),
        r.active == spec_count_active(rows@),
        r.breached == spec_count_breached(rows@),
        match r.next_breach {
            Some(i) => spec_is_next_breach(rows@, i as int),
            None => forall|j: int| 0 <= j < rows@.len() ==> !spec_status_candidate(#[trigger] rows@[j]),
        },
{
    let n = rows.len();
    let mut active: usize = 0;
    let mut breached: usize = 0;
    let mut best: Option<usize> = None;
    let mut i: usize = 0;
    while i < n
        invariant
            0 <= i <= n == rows@.len(),
            active == spec_count_active(rows@.take(i as int)),
            breached == spec_count_breached(rows@.take(i as int)),
            active <= i,
            breached <= i,
            match best {
                Some(b) => spec_is_next_breach(rows@.take(i as int), b as int),
                None => forall|j: int| 0 <= j < i ==> !spec_status_candidate(#[trigger] rows@[j]),
            },
        decreases n - i,
    {
        let ghost pre = rows@.take(i as int);
        let ghost post = rows@.take(i + 1);
        assert(post.drop_last() =~= pre);
        assert(post.last() == rows@[i as int]);
        let row = &rows[i];
        match row.active {
            Some(true) => {
                active = active + 1;
            },
            _ => {},
        }
        match row.has_breached {
            Some(true) => {
                breached = breached + 1;
            },
            _ => {},
        }
        let p: Option<&str> = match &row.planned_end_time {
            Some(x) => Some(x.as_str()),
            None => None,
        };
        let candidate = is_next_breach_candidate(row.active, row.has_breached, &row.stage, p);
        if candidate {
            let t = status_time(row);
            match best {
                None => {
                    best = Some(i);
                    assert forall|j: int| 0 <= j < i + 1 && spec_status_candidate(#[trigger] post[j]) implies j == i by {
                        assert(post[j] == rows@[j]);
                    }
                },
                Some(b) => {
                    let bt = status_time(&rows[b]);
                    let earlier = match (t, bt) {
                        (Some(x), Some(y)) => str_lt(x, y),
                        _ => false,
                    };
                    proof {
                        assert(pre[b as int] == rows@[b as int]);
                    }
                    if earlier {
                        best = Some(i);
                        proof {
                            assert forall|j: int| 0 <= j < i && spec_status_candidate(#[trigger] post[j]) implies spec_lex_lt(
                                spec_status_time(post[i as int]),
                                spec_status_time(post[j]),
                            ) by {
                                assert(post[j] == pre[j]);
                                let tb = spec_status_time(rows@[b as int]);
                                let ti = spec_status_time(rows@[i as int]);
                                let tj = spec_status_time(rows@[j]);
                                if j < b {
                                    lemma_lex_transitive(ti, tb, tj);
                                } else if j > b {
                                    lemma_lex_total(tj, tb);
                                    if spec_lex_lt(tb, tj) {
                                        lemma_lex_transitive(ti, tb, tj);
                                    }
                                }
                            }
                        }
                    } else {
                        proof {
                            assert forall|j: int| b < j < i + 1 && spec_status_candidate(#[trigger] post[j]) implies !spec_lex_lt(
                                spec_status_time(post[j]),
                                spec_status_time(post[b as int]),
                            ) by {
                                assert(post[j] == rows@[j]);
                            }
                            assert forall|j: int| 0 <= j < b && spec_status_candidate(#[trigger] post[j]) implies spec_lex_lt(
                                spec_status_time(post[b as int]),
                                spec_status_time(post[j]),
                            ) by {
                                assert(post[j] == pre[j]);
                            }
                        }
                    }
                },
            }
        } else {
            proof {
                match best {
                    Some(b) => {
                        assert forall|j: int| 0 <= j < b && spec_status_candidate(#[trigger] post[j]) implies spec_lex_lt(
                            spec_status_time(post[b as int]),
                            spec_status_time(post[j]),
                        ) by {
                            assert(post[j] == pre[j]);
                        }
                        assert forall|j: int| b < j < i + 1 && spec_status_candidate(#[trigger] post[j]) implies !spec_lex_lt(
                            spec_status_time(post[j]),
                            spec_status_time(post[b as int]),
                        ) by {
                            if j < i {
                                assert(post[j] == pre[j]);
                            }
                        }
                    },
                    None => {},
                }
            }
        }
        i = i + 1;
    }
    assert(rows@.take(n as int) =~= rows@);
    SlaCounts { total: n, active, breached, next_breach: best }
}

} // verus!
