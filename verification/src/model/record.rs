//! Records of a table: their fields and the related records attached to them.

use vstd::prelude::*;
use crate::model::json::{spec_member, JsonValue};
use crate::model::value::{
    opt_str_view, parse_field_value, spec_field_str, spec_parse_field_value, spec_raw_str,
    DisplayValue, FieldValue, FieldView,
};
use crate::strmap::StrMap;
use crate::text::{concat, owned, str_chars, str_eq};

verus! {

/// The sys_id of a record object: the `sys_id` member when it is a non-empty
/// string, or the non-empty string `value` of an expanded `sys_id`; otherwise empty.
pub open spec fn spec_record_sys_id(m: Seq<(String, JsonValue)>) -> Seq<char> {
    match spec_member(m, "sys_id"@) {
        Some(JsonValue::String(s)) => if s@.len() > 0 {
            s@
        } else {
            Seq::empty()
        },
        Some(JsonValue::Object(o)) => match spec_member(o@, "value"@) {
            Some(JsonValue::String(s)) => if s@.len() > 0 {
                s@
            } else {
                Seq::empty()
            },
            _ => Seq::empty(),
        },
        _ => Seq::empty(),
    }
}

/// The fields of a record object, member by member; a later member of the
/// same name replaces an earlier one.
pub open spec fn spec_fields_of(m: Seq<(String, JsonValue)>, mode: DisplayValue) -> Map<Seq<char>, FieldView>
    decreases m.len(),
{
    if m.len() == 0 {
        Map::empty()
    } else {
        spec_fields_of(m.drop_last(), mode).insert(
            m.last().0@,
            spec_parse_field_value(m.last().1, mode),
        )
    }
}

/// Whether `k` starts with `prefix` followed by a dot.
pub open spec fn spec_dot_walked(k: Seq<char>, prefix: Seq<char>) -> bool {
    k.len() > prefix.len() && k.take(prefix.len() as int) == prefix && k[prefix.len() as int] == '.'
}

/// A single record from a table.
#[derive(Debug)]
pub struct Record {
    /// The table this record belongs to.
    pub table: String,
    /// The sys_id of this record.
    pub sys_id: String,
    fields: StrMap<FieldValue>,
    related: StrMap<Vec<Record>>,
}

impl Record {
    /// The table name.
    pub closed spec fn spec_table(&self) -> Seq<char> {
        self.table@
    }

    /// The sys_id.
    pub closed spec fn spec_sys_id(&self) -> Seq<char> {
        self.sys_id@
    }

    /// The fields, by name.
    pub closed spec fn spec_fields(&self) -> Map<Seq<char>, FieldView> {
        self.fields@.map_values(|f: FieldValue| f@)
    }

    /// The field names in the order they were set.
    pub closed spec fn spec_field_order(&self) -> Seq<Seq<char>> {
        self.fields.key_seq()
    }

    /// The related records, by relationship name.
    pub closed spec fn spec_related(&self) -> Map<Seq<char>, Seq<Record>> {
        self.related@.map_values(|v: Vec<Record>| v@)
    }

    /// A new record with no fields and no related records.
    pub fn new(table: &str, sys_id: &str) -> (r: Self)
        ensures
            r.spec_table() == table@,
            r.spec_sys_id() == sys_id@,
            r.spec_fields() == Map::<Seq<char>, FieldView>::empty(),
            r.spec_related() == Map::<Seq<char>, Seq<Record>>::empty(),
    {
        let r = Record {
            table: owned(table),
            sys_id: owned(sys_id),
            fields: StrMap::new(),
            related: StrMap::new(),
        };
        assert(r.spec_fields() =~= Map::<Seq<char>, FieldView>::empty());
        assert(r.spec_related() =~= Map::<Seq<char>, Seq<Record>>::empty());
        r
    }

    /// Parse a record from a JSON object returned by the API; `None` when the
    /// value is not an object. Every member becomes a field.
    pub fn from_json(table: &str, json: JsonValue, display_mode: DisplayValue) -> (r: Option<Self>)
        ensures
            match json {
                JsonValue::Object(m) => r matches Some(rec) && rec.spec_table() == table@
                    && rec.spec_sys_id() == spec_record_sys_id(m@)
                    && rec.spec_fields() == spec_fields_of(m@, display_mode)
                    && rec.spec_related() == Map::<Seq<char>, Seq<Record>>::empty(),
                _ => r.is_none(),
            },
    {
        let ghost orig = json;
        match json {
            JsonValue::Object(m) => {
                let sys_id = record_sys_id(&m);
                let mut rec = Record::new(table, "");
                rec.sys_id = sys_id;
                let ghost all = m@;
                let mut rest = m;
                let n = rest.len();
                let mut i: usize = 0;
                assert(all.skip(0) =~= all);
                assert(all.take(0) =~= Seq::<(String, JsonValue)>::empty());
                assert(rec.spec_fields() =~= spec_fields_of(all.take(0), display_mode));
                while i < n
                    invariant
                        0 <= i <= n == all.len(),
                        rest@ == all.skip(i as int),
                        rec.table@ == table@,
                        rec.sys_id@ == spec_record_sys_id(all),
                        rec.spec_fields() == spec_fields_of(all.take(i as int), display_mode),
                        rec.spec_related() == Map::<Seq<char>, Seq<Record>>::empty(),
                    decreases n - i,
                {
                    let (key, value) = rest.remove(0);
                    assert(all.take(i + 1).drop_last() =~= all.take(i as int));
                    assert(all.take(i + 1).last() == all[i as int]);
                    assert(rest@ =~= all.skip(i + 1));
                    let fv = parse_field_value(value, display_mode);
                    rec.set_owned(key, fv);
                    i = i + 1;
                }
                assert(all.take(n as int) =~= all);
                Some(rec)
            },
            _ => None,
        }
    }

    fn set_owned(&mut self, field: String, value: FieldValue)
        ensures
            final(self).spec_fields() == old(self).spec_fields().insert(field@, value@),
            final(self).spec_table() == old(self).spec_table(),
            final(self).spec_sys_id() == old(self).spec_sys_id(),
            final(self).spec_related() == old(self).spec_related(),
    {
        let ghost k = field@;
        let ghost fv = value@;
        self.fields.insert(field, value);
        assert(self.spec_fields() =~= old(self).spec_fields().insert(k, fv));
    }

    /// The table name.
    pub fn table_str(&self) -> (r: &str)
        ensures
            r@ == self.spec_table(),
    {
        self.table.as_str()
    }

    /// The sys_id.
    pub fn sys_id_str(&self) -> (r: &str)
        ensures
            r@ == self.spec_sys_id(),
    {
        self.sys_id.as_str()
    }

    /// A field by name; dot-walked names such as `"assigned_to.name"` are
    /// plain keys of the response.
    pub fn get(&self, field: &str) -> (r: Option<&FieldValue>)
        ensures
            match r {
                Some(f) => self.spec_fields().contains_key(field@) && self.spec_fields()[field@] == f@,
                None => !self.spec_fields().contains_key(field@),
            },
    {
        self.fields.get(field)
    }

    /// A field's string form, preferring its display value.
    pub fn get_str(&self, field: &str) -> (r: Option<&str>)
        ensures
            opt_str_view(r) == (if self.spec_fields().contains_key(field@) {
                spec_field_str(self.spec_fields()[field@])
            } else {
                None
            }),
    {
        match self.fields.get(field) {
            Some(fv) => fv.as_str(),
            None => None,
        }
    }

    /// A field's raw string value.
    pub fn get_raw(&self, field: &str) -> (r: Option<&str>)
        ensures
            opt_str_view(r) == (if self.spec_fields().contains_key(field@) {
                spec_raw_str(self.spec_fields()[field@].0)
            } else {
                None
            }),
    {
        match self.fields.get(field) {
            Some(fv) => fv.raw_str(),
            None => None,
        }
    }

    /// A field's display string value.
    pub fn get_display(&self, field: &str) -> (r: Option<&str>)
        ensures
            opt_str_view(r) == (if self.spec_fields().contains_key(field@) {
                self.spec_fields()[field@].1
            } else {
                None
            }),
    {
        match self.fields.get(field) {
            Some(fv) => fv.display_str(),
            None => None,
        }
    }

    /// All fields whose name starts with `prefix` and a dot, such as
    /// `("assigned_to.name", value)` for the prefix `"assigned_to"`.
    pub fn dot_walked_fields(&self, prefix: &str) -> (r: Vec<(&str, &FieldValue)>)
        ensures
            forall|i: int| 0 <= i < r@.len() ==> {
                &&& spec_dot_walked((#[trigger] r@[i]).0@, prefix@)
                &&& self.spec_fields().contains_key(r@[i].0@)
                &&& self.spec_fields()[r@[i].0@] == r@[i].1@
            },
            forall|k: Seq<char>| #[trigger] self.spec_fields().contains_key(k) && spec_dot_walked(k, prefix@)
                ==> exists|i: int| 0 <= i < r@.len() && r@[i].0@ == k,
    {
        let dotted = concat(prefix, ".");
        let n = self.fields.len();
        let mut out: Vec<(&str, &FieldValue)> = Vec::new();
        let mut i: usize = 0;
        while i < n
            invariant
                0 <= i <= n == self.fields.key_seq().len(),
                dotted@ == prefix@ + "."@,
                forall|k: Seq<char>| #[trigger] self.fields@.contains_key(k) <==> self.fields.key_seq().contains(k),
                forall|j: int| 0 <= j < out@.len() ==> {
                    &&& spec_dot_walked((#[trigger] out@[j]).0@, prefix@)
                    &&& self.spec_fields().contains_key(out@[j].0@)
                    &&& self.spec_fields()[out@[j].0@] == out@[j].1@
                },
                forall|j: int| 0 <= j < i && spec_dot_walked(#[trigger] self.fields.key_seq()[j], prefix@)
                    ==> exists|l: int| 0 <= l < out@.len() && out@[l].0@ == self.fields.key_seq()[j],
            decreases n - i,
        {
            let (k, v) = self.fields.entry_at(i);
            let ghost prev = out@;
            if starts_with(k.as_str(), dotted.as_str()) {
                proof {
                    reveal_strlit(".");
                    assert(k@.take(prefix@.len() as int) =~= prefix@) by {
                        assert forall|j: int| 0 <= j < prefix@.len() implies k@[j] == prefix@[j] by {
                            assert(k@[j] == dotted@[j]);
                        }
                    }
                    assert(k@[prefix@.len() as int] == dotted@[prefix@.len() as int]);
                }
                out.push((k.as_str(), v));
                assert(out@[out@.len() - 1].0@ == self.fields.key_seq()[i as int]);
            } else {
                proof {
                    reveal_strlit(".");
                    if spec_dot_walked(k@, prefix@) {
                        assert(k@.take(dotted@.len() as int) =~= dotted@) by {
                            assert forall|j: int| 0 <= j < dotted@.len() implies k@[j] == dotted@[j] by {
                                if j < prefix@.len() {
                                    assert(k@.take(prefix@.len() as int)[j] == k@[j]);
                                }
                            }
                        }
                    }
                }
            }
            proof {
                assert forall|j: int| 0 <= j < i + 1 && spec_dot_walked(#[trigger] self.fields.key_seq()[j], prefix@)
                    implies exists|l: int| 0 <= l < out@.len() && out@[l].0@ == self.fields.key_seq()[j] by {
                    if j < i {
                        let l = choose|l: int| 0 <= l < prev.len() && prev[l].0@ == self.fields.key_seq()[j];
                        assert(out@[l] == prev[l]);
                    } else {
                        assert(out@.len() == prev.len() + 1);
                        assert(out@[out@.len() - 1].0@ == self.fields.key_seq()[j]);
                    }
                }
            }
            i = i + 1;
        }
        proof {
            assert forall|k: Seq<char>| #[trigger] self.spec_fields().contains_key(k) && spec_dot_walked(k, prefix@)
                implies exists|l: int| 0 <= l < out@.len() && out@[l].0@ == k by {
                assert(self.fields@.contains_key(k));
                assert(self.fields.key_seq().contains(k));
                let j = choose|j: int| 0 <= j < self.fields.key_seq().len() && self.fields.key_seq()[j] == k;
                assert(spec_dot_walked(self.fields.key_seq()[j], prefix@));
            }
        }
        out
    }

    /// Whether a field is present, dot-walked names included.
    pub fn has_field(&self, field: &str) -> (r: bool)
        ensures
            r == self.spec_fields().contains_key(field@),
    {
        self.fields.contains_key(field)
    }

    /// All field names, in the order they were set.
    pub fn field_names(&self) -> (r: Vec<String>)
        ensures
            r@.len() == self.spec_field_order().len(),
            forall|i: int| 0 <= i < r@.len() ==> #[trigger] r@[i]@ == self.spec_field_order()[i],
            forall|k: Seq<char>| #[trigger] self.spec_fields().contains_key(k) <==> self.spec_field_order().contains(k),
    {
        let _ = self.fields.len();
        self.fields.keys()
    }

    /// All fields.
    pub fn fields(&self) -> (r: &StrMap<FieldValue>)
        ensures
            r@.map_values(|f: FieldValue| f@) == self.spec_fields(),
    {
        &self.fields
    }

    /// Set a field value, replacing any earlier one.
    pub fn set(&mut self, field: &str, value: FieldValue)
        ensures
            final(self).spec_fields() == old(self).spec_fields().insert(field@, value@),
            final(self).spec_table() == old(self).spec_table(),
            final(self).spec_sys_id() == old(self).spec_sys_id(),
            final(self).spec_related() == old(self).spec_related(),
    {
        self.set_owned(owned(field), value)
    }

    /// The records related under a relationship name; empty when none were attached.
    pub fn related(&self, relationship: &str) -> (r: &[Record])
        ensures
            r@ == (if self.spec_related().contains_key(relationship@) {
                self.spec_related()[relationship@]
            } else {
                Seq::<Record>::empty()
            }),
    {
        match self.related.get(relationship) {
            Some(v) => v.as_slice(),
            None => &[],
        }
    }

    /// All relationship names that have records attached, in attachment order.
    pub fn relationship_names(&self) -> (r: Vec<String>)
        ensures
            forall|k: Seq<char>| #[trigger] self.spec_related().contains_key(k) <==> exists|i: int|
                0 <= i < r@.len() && r@[i]@ == k,
    {
        let _ = self.related.len();
        let r = self.related.keys();
        proof {
            assert forall|k: Seq<char>| #[trigger] self.spec_related().contains_key(k) <==> exists|i: int|
                0 <= i < r@.len() && r@[i]@ == k by {
                if self.spec_related().contains_key(k) {
                    assert(self.related.key_seq().contains(k));
                    let i = choose|i: int| 0 <= i < self.related.key_seq().len() && self.related.key_seq()[i] == k;
                    assert(r@[i]@ == k);
                }
                if exists|i: int| 0 <= i < r@.len() && r@[i]@ == k {
                    let i = choose|i: int| 0 <= i < r@.len() && r@[i]@ == k;
                    assert(self.related.key_seq()[i] == k);
                    assert(self.related.key_seq().contains(k));
                }
            }
        }
        r
    }

    /// Attach related records under a relationship name, replacing any earlier ones.
    pub fn set_related(&mut self, relationship: &str, records: Vec<Record>)
        ensures
            final(self).spec_related() == old(self).spec_related().insert(relationship@, records@),
            final(self).spec_fields() == old(self).spec_fields(),
            final(self).spec_table() == old(self).spec_table(),
            final(self).spec_sys_id() == old(self).spec_sys_id(),
    {
        let ghost rs = records@;
        self.related.insert(owned(relationship), records);
        assert(self.spec_related() =~= old(self).spec_related().insert(relationship@, rs));
    }

    /// Whether any related records are attached.
    pub fn has_related(&self) -> (r: bool)
        ensures
            r == (self.spec_related() != Map::<Seq<char>, Seq<Record>>::empty()),
    {
        let e = self.related.is_empty();
        proof {
            if e {
                assert(self.spec_related() =~= Map::<Seq<char>, Seq<Record>>::empty());
            } else {
                let k = self.related@.dom().choose();
                if self.related@.dom().len() == 0 {
                }
                assert(self.related@ != Map::<Seq<char>, Vec<Record>>::empty());
                assert(exists|k: Seq<char>| self.related@.contains_key(k)) by {
                    if !(exists|k: Seq<char>| self.related@.contains_key(k)) {
                        assert(self.related@ =~= Map::<Seq<char>, Vec<Record>>::empty());
                    }
                }
                let k2 = choose|k: Seq<char>| self.related@.contains_key(k);
                assert(self.spec_related().contains_key(k2));
            }
        }
        !e
    }
}

/// Whether `s` starts with `p`.
pub fn starts_with(s: &str, p: &str) -> (r: bool)
    ensures
        r == (p@.len() <= s@.len() && s@.take(p@.len() as int) == p@),
{
    let a = str_chars(s);
    let b = str_chars(p);
    if b.len() > a.len() {
        return false;
    }
    let mut i: usize = 0;
    while i < b.len()
        invariant
            0 <= i <= b@.len() <= a@.len(),
            a@ == s@,
            b@ == p@,
            forall|j: int| 0 <= j < i ==> a@[j] == b@[j],
        decreases b@.len() - i,
    {
        if a[i] != b[i] {
            assert(s@.take(p@.len() as int)[i as int] != p@[i as int]);
            return false;
        }
        i = i + 1;
    }
    assert(s@.take(p@.len() as int) =~= p@);
    true
}

/// The sys_id of a record object, copied.
fn record_sys_id(m: &Vec<(String, JsonValue)>) -> (r: String)
    ensures
        r@ == spec_record_sys_id(m@),
{
    match member_ref(m, "sys_id") {
        Some(JsonValue::String(s)) => {
            if !s.as_str().is_empty() {
                owned(s.as_str())
            } else {
                String::new()
            }
        },
        Some(JsonValue::Object(o)) => match member_ref(o, "value") {
            Some(JsonValue::String(s)) => {
                if !s.as_str().is_empty() {
                    owned(s.as_str())
                } else {
                    String::new()
                }
            },
            _ => String::new(),
        },
        _ => String::new(),
    }
}

/// The first member `key` of an object.
pub fn member_ref<'a>(m: &'a Vec<(String, JsonValue)>, key: &str) -> (r: Option<&'a JsonValue>)
    ensures
        match r {
            Some(v) => spec_member(m@, key@) == Some(*v),
            None => spec_member(m@, key@).is_none(),
        },
{
    let n = m.len();
    let mut i: usize = 0;
    assert(m@.skip(0) =~= m@);
    while i < n
        invariant
            0 <= i <= n == m@.len(),
            spec_member(m@, key@) == spec_member(m@.skip(i as int), key@),
        decreases n - i,
    {
        assert(m@.skip(i as int).drop_first() =~= m@.skip(i + 1));
        assert(m@.skip(i as int)[0] == m@[i as int]);
        if str_eq(m[i].0.as_str(), key) {
            return Some(&m[i].1);
        }
        i = i + 1;
    }
    None
}

}
