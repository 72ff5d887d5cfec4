//! Conditions, operators and the encoded-query syntax of the Table API.

use vstd::prelude::*;
use crate::error::Error;
use crate::text::{char_is_alphanumeric, owned, push_char, push_str, spec_is_alphanumeric, str_chars};

verus! {

/// A single filter condition in an encoded query.
#[derive(Debug, Clone)]
pub struct Filter {
    pub field: String,
    pub operator: Operator,
    pub value: String,
}

/// Logical joiner between filter conditions.
#[derive(Debug, Clone, Copy, PartialEq, Eq, Structural)]
pub enum Joiner {
    And,
    Or,
    NewQuery,
}

/// Query operators of the encoded query syntax.
#[derive(Debug, Clone, Copy, PartialEq, Eq, Structural)]
pub enum Operator {
    Equals,
    NotEquals,
    /// Contains / LIKE: fuzzy substring match.
    Contains,
    /// Not contains / NOT LIKE.
    NotContains,
    StartsWith,
    EndsWith,
    GreaterThan,
    GreaterThanOrEqual,
    LessThan,
    LessThanOrEqual,
    In,
    NotIn,
    IsEmpty,
    IsNotEmpty,
    Between,
    InstanceOf,
}

/// The operator's text in an encoded query.
pub open spec fn spec_operator_text(op: Operator) -> Seq<char> {
    match op {
        Operator::Equals => "="@,
        Operator::NotEquals => "!="@,
        Operator::Contains => "LIKE"@,
        Operator::NotContains => "NOT LIKE"@,
        Operator::StartsWith => "STARTSWITH"@,
        Operator::EndsWith => "ENDSWITH"@,
        Operator::GreaterThan => ">"@,
        Operator::GreaterThanOrEqual => ">="@,
        Operator::LessThan => "<"@,
        Operator::LessThanOrEqual => "<="@,
        Operator::In => "IN"@,
        Operator::NotIn => "NOT IN"@,
        Operator::IsEmpty => "ISEMPTY"@,
        Operator::IsNotEmpty => "ISNOTEMPTY"@,
        Operator::Between => "BETWEEN"@,
        Operator::InstanceOf => "INSTANCEOF"@,
    }
}

/// Each operator has its own text: distinct operators never encode alike, so
/// a query says which comparison it asks for.
pub proof fn law_operator_texts_distinct(a: Operator, b: Operator)
    ensures
        spec_operator_text(a) == spec_operator_text(b) ==> a == b,
{
    reveal_strlit("=");
    reveal_strlit("!=");
    reveal_strlit("LIKE");
    reveal_strlit("NOT LIKE");
    reveal_strlit("STARTSWITH");
    reveal_strlit("ENDSWITH");
    reveal_strlit(">");
    reveal_strlit(">=");
    reveal_strlit("<");
    reveal_strlit("<=");
    reveal_strlit("IN");
    reveal_strlit("NOT IN");
    reveal_strlit("ISEMPTY");
    reveal_strlit("ISNOTEMPTY");
    reveal_strlit("BETWEEN");
    reveal_strlit("INSTANCEOF");
    let ta = spec_operator_text(a);
    let tb = spec_operator_text(b);
    if ta == tb {
        assert(ta.len() == tb.len());
        assert(ta[0] == tb[0]);
        if ta.len() > 1 {
            assert(ta[1] == tb[1]);
        }
    }
}

/// The inclusive comparisons are the strict ones followed by `=`, and the
/// negated containment and membership tests are the plain ones after `NOT `.
pub proof fn law_operator_texts_compose()
    ensures
        spec_operator_text(Operator::GreaterThanOrEqual) == spec_operator_text(Operator::GreaterThan)
            + spec_operator_text(Operator::Equals),
        spec_operator_text(Operator::LessThanOrEqual) == spec_operator_text(Operator::LessThan)
            + spec_operator_text(Operator::Equals),
        spec_operator_text(Operator::NotContains) == "NOT "@ + spec_operator_text(Operator::Contains),
        spec_operator_text(Operator::NotIn) == "NOT "@ + spec_operator_text(Operator::In),
{
    reveal_strlit("=");
    reveal_strlit(">");
    reveal_strlit(">=");
    reveal_strlit("<");
    reveal_strlit("<=");
    reveal_strlit("NOT ");
    reveal_strlit("LIKE");
    reveal_strlit("NOT LIKE");
    reveal_strlit("IN");
    reveal_strlit("NOT IN");
    assert(">="@ =~= ">"@ + "="@);
    assert("<="@ =~= "<"@ + "="@);
    assert("NOT LIKE"@ =~= "NOT "@ + "LIKE"@);
    assert("NOT IN"@ =~= "NOT "@ + "IN"@);
}

impl Operator {
    /// The operator string of the encoded query syntax.
    pub fn as_encoded(&self) -> (r: &'static str)
        ensures
            r@ == spec_operator_text(*self),
    {
        match self {
            Operator::Equals => "=",
            Operator::NotEquals => "!=",
            Operator::Contains => "LIKE",
            Operator::NotContains => "NOT LIKE",
            Operator::StartsWith => "STARTSWITH",
            Operator::EndsWith => "ENDSWITH",
            Operator::GreaterThan => ">",
            Operator::GreaterThanOrEqual => ">=",
            Operator::LessThan => "<",
            Operator::LessThanOrEqual => "<=",
            Operator::In => "IN",
            Operator::NotIn => "NOT IN",
            Operator::IsEmpty => "ISEMPTY",
            Operator::IsNotEmpty => "ISNOTEMPTY",
            Operator::Between => "BETWEEN",
            Operator::InstanceOf => "INSTANCEOF",
        }
    }
}

/// Sort direction for order-by clauses.
#[derive(Debug, Clone, Copy, PartialEq, Eq, Structural)]
pub enum Order {
    Asc,
    Desc,
}

/// A query condition with its joiner.
#[derive(Debug, Clone)]
pub struct Condition {
    pub joiner: Joiner,
    pub filter: Filter,
}

/// A field name may hold alphanumeric characters, `_`, `-` and `.` only, and
/// must not be empty.
pub open spec fn spec_field_char_ok(c: char) -> bool {
    spec_is_alphanumeric(c) || c == '_' || c == '-' || c == '.'
}

pub open spec fn spec_valid_field_name(s: Seq<char>) -> bool {
    s.len() > 0 && forall|i: int| 0 <= i < s.len() ==> spec_field_char_ok(#[trigger] s[i])
}

/// Whether a field name holds only characters that cannot break the syntax.
pub fn validate_field_name(field: &str) -> (r: bool)
    ensures
        r == spec_valid_field_name(field@),
{
    let v = str_chars(field);
    let n = v.len();
    if n == 0 {
        return false;
    }
    let mut i: usize = 0;
    while i < n
        invariant
            0 <= i <= n == v@.len(),
            v@ == field@,
            forall|j: int| 0 <= j < i ==> spec_field_char_ok(#[trigger] v@[j]),
        decreases n - i,
    {
        let c = v[i];
        if !(char_is_alphanumeric(c) || c == '_' || c == '-' || c == '.') {
            return false;
        }
        i = i + 1;
    }
    true
}

/// A value with every `^` written as `\^`.
pub open spec fn spec_escape_value(v: Seq<char>) -> Seq<char>
    decreases v.len(),
{
    if v.len() == 0 {
        Seq::empty()
    } else {
        spec_escape_value(v.drop_last()) + (if v.last() == '^' {
            "\\^"@
        } else {
            seq![v.last()]
        })
    }
}

/// The text of one filter.
pub open spec fn spec_filter_text(f: Filter) -> Seq<char> {
    match f.operator {
        Operator::IsEmpty | Operator::IsNotEmpty => f.field@ + spec_operator_text(f.operator),
        _ => f.field@ + spec_operator_text(f.operator) + spec_escape_value(f.value@),
    }
}

/// The joiner written before a condition; the first condition has none.
pub open spec fn spec_joiner_text(j: Joiner, index: int) -> Seq<char> {
    if index == 0 {
        Seq::empty()
    } else {
        match j {
            Joiner::And => "^"@,
            Joiner::Or => "^OR"@,
            Joiner::NewQuery => "^NQ"@,
        }
    }
}

/// The text of a list of conditions.
pub open spec fn spec_conditions_text(cs: Seq<Condition>) -> Seq<char>
    decreases cs.len(),
{
    if cs.len() == 0 {
        Seq::empty()
    } else {
        spec_conditions_text(cs.drop_last()) + spec_joiner_text(cs.last().joiner, cs.len() - 1)
            + spec_filter_text(cs.last().filter)
    }
}

/// The text of one order-by clause.
pub open spec fn spec_order_text(o: (String, Order)) -> Seq<char> {
    match o.1 {
        Order::Asc => "^ORDERBY"@ + o.0@,
        Order::Desc => "^ORDERBYDESC"@ + o.0@,
    }
}

/// The text of a list of order-by clauses.
pub open spec fn spec_orders_text(os: Seq<(String, Order)>) -> Seq<char>
    decreases os.len(),
{
    if os.len() == 0 {
        Seq::empty()
    } else {
        spec_orders_text(os.drop_last()) + spec_order_text(os.last())
    }
}

pub open spec fn spec_conditions_valid(cs: Seq<Condition>) -> bool {
    forall|i: int| 0 <= i < cs.len() ==> spec_valid_field_name(#[trigger] cs[i].filter.field@)
}

pub open spec fn spec_orders_valid(os: Seq<(String, Order)>) -> bool {
    forall|i: int| 0 <= i < os.len() ==> spec_valid_field_name(#[trigger] os[i].0@)
}

/// The message for an invalid condition field.
pub open spec fn spec_field_error(field: Seq<char>) -> Seq<char> {
    "invalid field name: '"@ + field + "' — only alphanumeric, underscore, hyphen, and dot allowed"@
}

/// The message for an invalid order-by field.
pub open spec fn spec_order_field_error(field: Seq<char>) -> Seq<char> {
    "invalid order-by field name: '"@ + field
        + "' — only alphanumeric, underscore, hyphen, and dot allowed"@
}

/// The error `encode_query` gives: the first invalid field, conditions first.
pub open spec fn spec_encode_error(cs: Seq<Condition>, os: Seq<(String, Order)>, e: Error) -> bool {
    match e {
        Error::Query(m) => {
            ||| exists|i: int|
                0 <= i < cs.len() && !spec_valid_field_name(#[trigger] cs[i].filter.field@)
                    && spec_conditions_valid(cs.take(i)) && m@ == spec_field_error(cs[i].filter.field@)
            ||| spec_conditions_valid(cs) && exists|i: int|
                0 <= i < os.len() && !spec_valid_field_name(#[trigger] os[i].0@)
                    && spec_orders_valid(os.take(i)) && m@ == spec_order_field_error(os[i].0@)
        },
        _ => false,
    }
}

/// Append `v` to `out` with every `^` escaped.
fn push_escaped(out: &mut String, v: &str)
    ensures
        final(out)@ == old(out)@ + spec_escape_value(v@),
{
    let cs = str_chars(v);
    let n = cs.len();
    let mut i: usize = 0;
    while i < n
        invariant
            0 <= i <= n == cs@.len(),
            cs@ == v@,
            out@ == old(out)@ + spec_escape_value(cs@.take(i as int)),
        decreases n - i,
    {
        let c = cs[i];
        assert(cs@.take(i + 1).drop_last() =~= cs@.take(i as int));
        if c == '^' {
            push_str(out, "\\^");
        } else {
            push_char(out, c);
        }
        i = i + 1;
        assert(out@ =~= old(out)@ + spec_escape_value(cs@.take(i as int)));
    }
    assert(cs@.take(n as int) =~= v@);
}

fn field_error(field: &str, order_by: bool) -> (r: Error)
    ensures
        r matches Error::Query(m) && m@ == (if order_by {
            spec_order_field_error(field@)
        } else {
            spec_field_error(field@)
        }),
{
    let mut m = if order_by {
        owned("invalid order-by field name: '")
    } else {
        owned("invalid field name: '")
    };
    push_str(&mut m, field);
    push_str(&mut m, "' — only alphanumeric, underscore, hyphen, and dot allowed");
    Error::Query(m)
}

/// Build an encoded query from conditions and ordering.
///
/// Conditions are joined by `^`, `^OR` or `^NQ`; values have `^` escaped; the
/// order-by clauses follow. Fails on the first field name, conditions first,
/// that holds a character that could break the syntax.
pub fn encode_query(conditions: &[Condition], order_by: &[(String, Order)]) -> (r: Result<String, Error>)
    ensures
        r.is_ok() <==> spec_conditions_valid(conditions@) && spec_orders_valid(order_by@),
        match r {
            Ok(s) => s@ == spec_conditions_text(conditions@) + spec_orders_text(order_by@),
            Err(e) => spec_encode_error(conditions@, order_by@, e),
        },
{
    let mut out = String::new();
    let n = conditions.len();
    let mut i: usize = 0;
    while i < n
        invariant
            0 <= i <= n == conditions@.len(),
            out@ == spec_conditions_text(conditions@.take(i as int)),
            spec_conditions_valid(conditions@.take(i as int)),
        decreases n - i,
    {
        let cond = &conditions[i];
        let ghost before = out@;
        assert(conditions@.take(i + 1).drop_last() =~= conditions@.take(i as int));
        assert(conditions@.take(i + 1).last() == conditions@[i as int]);
        if i > 0 {
            match cond.joiner {
                Joiner::And => push_str(&mut out, "^"),
                Joiner::Or => push_str(&mut out, "^OR"),
                Joiner::NewQuery => push_str(&mut out, "^NQ"),
            }
        }
        assert(out@ =~= before + spec_joiner_text(cond.joiner, i as int));
        let f = &cond.filter;
        if !validate_field_name(f.field.as_str()) {
            let e = field_error(f.field.as_str(), false);
            assert(!spec_conditions_valid(conditions@)) by {
                assert(!spec_valid_field_name(conditions@[i as int].filter.field@));
            }
            assert(spec_encode_error(conditions@, order_by@, e)) by {
                assert(conditions@[i as int] == *cond);
            }
            return Err(e);
        }
        let ghost mid = out@;
        push_str(&mut out, f.field.as_str());
        push_str(&mut out, f.operator.as_encoded());
        match f.operator {
            Operator::IsEmpty | Operator::IsNotEmpty => {},
            _ => {
                push_escaped(&mut out, f.value.as_str());
            },
        }
        assert(out@ =~= mid + spec_filter_text(*f));
        i = i + 1;
        assert(out@ =~= spec_conditions_text(conditions@.take(i as int)));
        assert(spec_conditions_valid(conditions@.take(i as int))) by {
            assert forall|j: int| 0 <= j < i implies spec_valid_field_name(#[trigger] conditions@.take(i as int)[j].filter.field@) by {
                if j < i - 1 {
                    assert(conditions@.take(i as int)[j] == conditions@.take(i - 1)[j]);
                }
            }
        }
    }
    assert(conditions@.take(n as int) =~= conditions@);
    let ghost conds_text = out@;
    let m = order_by.len();
    let mut k: usize = 0;
    while k < m
        invariant
            0 <= k <= m == order_by@.len(),
            spec_conditions_valid(conditions@),
            out@ == conds_text + spec_orders_text(order_by@.take(k as int)),
            spec_orders_valid(order_by@.take(k as int)),
        decreases m - k,
    {
        let (field, order) = &order_by[k];
        assert(order_by@.take(k + 1).drop_last() =~= order_by@.take(k as int));
        assert(order_by@.take(k + 1).last() == order_by@[k as int]);
        if !validate_field_name(field.as_str()) {
            let e = field_error(field.as_str(), true);
            assert(!spec_orders_valid(order_by@)) by {
                assert(!spec_valid_field_name(order_by@[k as int].0@));
            }
            return Err(e);
        }
        let ghost before = out@;
        match order {
            Order::Asc => push_str(&mut out, "^ORDERBY"),
            Order::Desc => push_str(&mut out, "^ORDERBYDESC"),
        }
        push_str(&mut out, field.as_str());
        assert(out@ =~= before + spec_order_text(order_by@[k as int]));
        k = k + 1;
        assert(out@ =~= conds_text + spec_orders_text(order_by@.take(k as int)));
        assert(spec_orders_valid(order_by@.take(k as int))) by {
            assert forall|j: int| 0 <= j < k implies spec_valid_field_name(#[trigger] order_by@.take(k as int)[j].0@) by {
                if j < k - 1 {
                    assert(order_by@.take(k as int)[j] == order_by@.take(k - 1)[j]);
                }
            }
        }
    }
    assert(order_by@.take(m as int) =~= order_by@);
    Ok(out)
}

}
