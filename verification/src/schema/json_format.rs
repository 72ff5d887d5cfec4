//! Reading schema definitions and overlays from their JSON format.
//!
//! Members that a definition does not know are ignored; optional members may
//! be absent or `null`; flags default to `false`; field and relationship maps
//! default to empty in tables and overlays.

use vstd::prelude::*;
use crate::error::Error;
use crate::model::json::{parse_json, spec_member, spec_parse_json, JsonValue};
use crate::model::record::member_ref;
use crate::model::value::opt_view;
use crate::schema::definition::{
    opt_map_view, FieldDef, FieldDefView, FieldType, RelationshipDef, RelationshipType,
    RelationshipView, SchemaDefinition, SchemaOverlay, TableDef, TableOverlay, TableOverlayView,
    TableView,
};
use crate::strmap::StrMap;
use crate::text::{concat, owned, parse_uint, push_str, spec_parse_uint, str_eq};

verus! {

/// An optional string member: absent or `null` gives `Some(None)`; a
/// non-string value is an error (`None`).
pub open spec fn spec_opt_string(v: Option<JsonValue>) -> Option<Option<Seq<char>>> {
    match v {
        None => Some(None),
        Some(JsonValue::Null) => Some(None),
        Some(JsonValue::String(s)) => Some(Some(s@)),
        _ => None,
    }
}

/// A required string member.
pub open spec fn spec_req_string(v: Option<JsonValue>) -> Option<Seq<char>> {
    match v {
        Some(JsonValue::String(s)) => Some(s@),
        _ => None,
    }
}

/// A flag that defaults to `false` when absent.
pub open spec fn spec_flag(v: Option<JsonValue>) -> Option<bool> {
    match v {
        None => Some(false),
        Some(JsonValue::Bool(b)) => Some(b),
        _ => None,
    }
}

/// An optional length: absent or `null`, or a number that fits in `u32`.
pub open spec fn spec_opt_u32(v: Option<JsonValue>) -> Option<Option<u32>> {
    match v {
        None => Some(None),
        Some(JsonValue::Null) => Some(None),
        Some(JsonValue::Number(t)) => match spec_parse_uint(t@, 0xffff_ffff) {
            Some(n) => Some(Some(n as u32)),
            None => None,
        },
        _ => None,
    }
}

/// The field type named in snake case.
pub open spec fn spec_field_type(name: Seq<char>) -> Option<FieldType> {
    if name == "string"@ { Some(FieldType::String) }
    else if name == "integer"@ { Some(FieldType::Integer) }
    else if name == "boolean"@ { Some(FieldType::Boolean) }
    else if name == "decimal"@ { Some(FieldType::Decimal) }
    else if name == "float"@ { Some(FieldType::Float) }
    else if name == "date_time"@ { Some(FieldType::DateTime) }
    else if name == "date"@ { Some(FieldType::Date) }
    else if name == "time"@ { Some(FieldType::Time) }
    else if name == "reference"@ { Some(FieldType::Reference) }
    else if name == "journal"@ { Some(FieldType::Journal) }
    else if name == "journal_input"@ { Some(FieldType::JournalInput) }
    else if name == "glide_list"@ { Some(FieldType::GlideList) }
    else if name == "url"@ { Some(FieldType::Url) }
    else if name == "email"@ { Some(FieldType::Email) }
    else if name == "phone"@ { Some(FieldType::Phone) }
    else if name == "currency"@ { Some(FieldType::Currency) }
    else if name == "price"@ { Some(FieldType::Price) }
    else if name == "html"@ { Some(FieldType::Html) }
    else if name == "script"@ { Some(FieldType::Script) }
    else if name == "conditions"@ { Some(FieldType::Conditions) }
    else if name == "document_id"@ { Some(FieldType::DocumentId) }
    else if name == "sys_class_name"@ { Some(FieldType::SysClassName) }
    else if name == "domain_id"@ { Some(FieldType::DomainId) }
    else if name == "other"@ { Some(FieldType::Other) }
    else { None }
}

/// The relationship type named in snake case.
pub open spec fn spec_relationship_type(name: Seq<char>) -> Option<RelationshipType> {
    if name == "one_to_many"@ {
        Some(RelationshipType::OneToMany)
    } else if name == "many_to_one"@ {
        Some(RelationshipType::ManyToOne)
    } else if name == "many_to_many"@ {
        Some(RelationshipType::ManyToMany)
    } else {
        None
    }
}

/// An object whose members are all strings, as a map; a later member wins.
pub open spec fn spec_string_map(m: Seq<(String, JsonValue)>) -> Option<Map<Seq<char>, Seq<char>>>
    decreases m.len(),
{
    if m.len() == 0 {
        Some(Map::empty())
    } else {
        match (spec_string_map(m.drop_last()), m.last().1) {
            (Some(mm), JsonValue::String(s)) => Some(mm.insert(m.last().0@, s@)),
            _ => None,
        }
    }
}

/// The optional choices member.
pub open spec fn spec_opt_choices(v: Option<JsonValue>) -> Option<Option<Map<Seq<char>, Seq<char>>>> {
    match v {
        None => Some(None),
        Some(JsonValue::Null) => Some(None),
        Some(JsonValue::Object(m)) => match spec_string_map(m@) {
            Some(mm) => Some(Some(mm)),
            None => None,
        },
        _ => None,
    }
}

/// A field definition read from JSON.
pub open spec fn spec_field_def(v: JsonValue) -> Option<FieldDefView> {
    match v {
        JsonValue::Object(m) => {
            let ft = match spec_req_string(spec_member(m@, "type"@)) {
                Some(n) => spec_field_type(n),
                None => None,
            };
            let ml = spec_opt_u32(spec_member(m@, "max_length"@));
            let ro = spec_flag(spec_member(m@, "read_only"@));
            let md = spec_flag(spec_member(m@, "mandatory"@));
            let wo = spec_flag(spec_member(m@, "write_only"@));
            let ch = spec_opt_choices(spec_member(m@, "choices"@));
            let rt = spec_opt_string(spec_member(m@, "reference_table"@));
            let lb = spec_opt_string(spec_member(m@, "label"@));
            if ft.is_some() && ml.is_some() && ro.is_some() && md.is_some() && wo.is_some()
                && ch.is_some() && rt.is_some() && lb.is_some() {
                Some((ft.unwrap(), ml.unwrap(), ro.unwrap(), md.unwrap(), wo.unwrap(), ch.unwrap(), rt.unwrap(), lb.unwrap()))
            } else {
                None
            }
        },
        _ => None,
    }
}

/// A relationship definition read from JSON.
pub open spec fn spec_relationship_def(v: JsonValue) -> Option<RelationshipView> {
    match v {
        JsonValue::Object(m) => {
            let t = spec_req_string(spec_member(m@, "table"@));
            let fk = spec_req_string(spec_member(m@, "foreign_key"@));
            let rt = match spec_req_string(spec_member(m@, "type"@)) {
                Some(n) => spec_relationship_type(n),
                None => None,
            };
            let f = spec_opt_string(spec_member(m@, "filter"@));
            if t.is_some() && fk.is_some() && rt.is_some() && f.is_some() {
                Some((t.unwrap(), fk.unwrap(), rt.unwrap(), f.unwrap()))
            } else {
                None
            }
        },
        _ => None,
    }
}

/// An object of field definitions; a later member wins.
pub open spec fn spec_field_map(m: Seq<(String, JsonValue)>) -> Option<Map<Seq<char>, FieldDefView>>
    decreases m.len(),
{
    if m.len() == 0 {
        Some(Map::empty())
    } else {
        match (spec_field_map(m.drop_last()), spec_field_def(m.last().1)) {
            (Some(mm), Some(d)) => Some(mm.insert(m.last().0@, d)),
            _ => None,
        }
    }
}

/// An object of relationship definitions; a later member wins.
pub open spec fn spec_relationship_map(m: Seq<(String, JsonValue)>) -> Option<Map<Seq<char>, RelationshipView>>
    decreases m.len(),
{
    if m.len() == 0 {
        Some(Map::empty())
    } else {
        match (spec_relationship_map(m.drop_last()), spec_relationship_def(m.last().1)) {
            (Some(mm), Some(d)) => Some(mm.insert(m.last().0@, d)),
            _ => None,
        }
    }
}

/// A member holding fields, defaulting to none when absent.
pub open spec fn spec_fields_member(v: Option<JsonValue>) -> Option<Map<Seq<char>, FieldDefView>> {
    match v {
        None => Some(Map::empty()),
        Some(JsonValue::Object(m)) => spec_field_map(m@),
        _ => None,
    }
}

/// A member holding relationships, defaulting to none when absent.
pub open spec fn spec_relationships_member(v: Option<JsonValue>) -> Option<Map<Seq<char>, RelationshipView>> {
    match v {
        None => Some(Map::empty()),
        Some(JsonValue::Object(m)) => spec_relationship_map(m@),
        _ => None,
    }
}

/// A table overlay read from JSON.
pub open spec fn spec_table_overlay(v: JsonValue) -> Option<TableOverlayView> {
    match v {
        JsonValue::Object(m) => {
            let l = spec_opt_string(spec_member(m@, "label"@));
            let e = spec_opt_string(spec_member(m@, "extends"@));
            let f = spec_fields_member(spec_member(m@, "fields"@));
            let r = spec_relationships_member(spec_member(m@, "relationships"@));
            if l.is_some() && e.is_some() && f.is_some() && r.is_some() {
                Some((l.unwrap(), e.unwrap(), f.unwrap(), r.unwrap()))
            } else {
                None
            }
        },
        _ => None,
    }
}

/// A table definition read from JSON; it needs a label.
pub open spec fn spec_table_def(v: JsonValue) -> Option<TableView> {
    match v {
        JsonValue::Object(m) => {
            let l = spec_req_string(spec_member(m@, "label"@));
            let e = spec_opt_string(spec_member(m@, "extends"@));
            let f = spec_fields_member(spec_member(m@, "fields"@));
            let r = spec_relationships_member(spec_member(m@, "relationships"@));
            if l.is_some() && e.is_some() && f.is_some() && r.is_some() {
                Some((l.unwrap(), e.unwrap(), f.unwrap(), r.unwrap()))
            } else {
                None
            }
        },
        _ => None,
    }
}

/// An object of table overlays; a later member wins.
pub open spec fn spec_overlay_tables(m: Seq<(String, JsonValue)>) -> Option<Map<Seq<char>, TableOverlayView>>
    decreases m.len(),
{
    if m.len() == 0 {
        Some(Map::empty())
    } else {
        match (spec_overlay_tables(m.drop_last()), spec_table_overlay(m.last().1)) {
            (Some(mm), Some(d)) => Some(mm.insert(m.last().0@, d)),
            _ => None,
        }
    }
}

/// An object of table definitions; a later member wins.
pub open spec fn spec_definition_tables(m: Seq<(String, JsonValue)>) -> Option<Map<Seq<char>, TableView>>
    decreases m.len(),
{
    if m.len() == 0 {
        Some(Map::empty())
    } else {
        match (spec_definition_tables(m.drop_last()), spec_table_def(m.last().1)) {
            (Some(mm), Some(d)) => Some(mm.insert(m.last().0@, d)),
            _ => None,
        }
    }
}

/// A schema overlay read from JSON: its base release and its tables.
pub open spec fn spec_overlay(v: JsonValue) -> Option<(Seq<char>, Map<Seq<char>, TableOverlayView>)> {
    match v {
        JsonValue::Object(m) => {
            let r = spec_req_string(spec_member(m@, "extends_release"@));
            let t = match spec_member(m@, "tables"@) {
                None => Some(Map::empty()),
                Some(JsonValue::Object(tm)) => spec_overlay_tables(tm@),
                _ => None,
            };
            if r.is_some() && t.is_some() {
                Some((r.unwrap(), t.unwrap()))
            } else {
                None
            }
        },
        _ => None,
    }
}

/// A schema definition read from JSON: its release and its tables, both required.
pub open spec fn spec_definition(v: JsonValue) -> Option<(Seq<char>, Map<Seq<char>, TableView>)> {
    match v {
        JsonValue::Object(m) => {
            let r = spec_req_string(spec_member(m@, "release"@));
            let t = match spec_member(m@, "tables"@) {
                Some(JsonValue::Object(tm)) => spec_definition_tables(tm@),
                _ => None,
            };
            if r.is_some() && t.is_some() {
                Some((r.unwrap(), t.unwrap()))
            } else {
                None
            }
        },
        _ => None,
    }
}

fn bad(what: &str) -> (r: Error)
    ensures
        r matches Error::Schema(_),
{
    Error::Schema(owned(what))
}

fn read_opt_string(v: Option<&JsonValue>) -> (r: Result<Option<String>, Error>)
    ensures
        match r {
            Ok(o) => spec_opt_string(opt_deref(v)) == Some(opt_view(o)),
            Err(e) => spec_opt_string(opt_deref(v)).is_none() && e matches Error::Schema(_),
        },
{
    match v {
        None => Ok(None),
        Some(JsonValue::Null) => Ok(None),
        Some(JsonValue::String(s)) => Ok(Some(s.clone())),
        _ => Err(bad("expected a string")),
    }
}

pub open spec fn opt_deref(v: Option<&JsonValue>) -> Option<JsonValue> {
    match v {
        Some(x) => Some(*x),
        None => None,
    }
}

fn read_req_string(v: Option<&JsonValue>) -> (r: Result<String, Error>)
    ensures
        match r {
            Ok(s) => spec_req_string(opt_deref(v)) == Some(s@),
            Err(e) => spec_req_string(opt_deref(v)).is_none() && e matches Error::Schema(_),
        },
{
    match v {
        Some(JsonValue::String(s)) => Ok(s.clone()),
        _ => Err(bad("expected a required string")),
    }
}

fn read_flag(v: Option<&JsonValue>) -> (r: Result<bool, Error>)
    ensures
        match r {
            Ok(b) => spec_flag(opt_deref(v)) == Some(b),
            Err(e) => spec_flag(opt_deref(v)).is_none() && e matches Error::Schema(_),
        },
{
    match v {
        None => Ok(false),
        Some(JsonValue::Bool(b)) => Ok(*b),
        _ => Err(bad("expected a boolean")),
    }
}

fn read_opt_u32(v: Option<&JsonValue>) -> (r: Result<Option<u32>, Error>)
    ensures
        match r {
            Ok(o) => spec_opt_u32(opt_deref(v)) == Some(o),
            Err(e) => spec_opt_u32(opt_deref(v)).is_none() && e matches Error::Schema(_),
        },
{
    match v {
        None => Ok(None),
        Some(JsonValue::Null) => Ok(None),
        Some(JsonValue::Number(t)) => match parse_uint(t.as_str(), 0xffff_ffff) {
            Some(n) => Ok(Some(n as u32)),
            None => Err(bad("expected an unsigned 32-bit number")),
        },
        _ => Err(bad("expected a number")),
    }
}

fn read_field_type(name: &str) -> (r: Option<FieldType>)
    ensures
        r == spec_field_type(name@),
{
    if str_eq(name, "string") { Some(FieldType::String) }
    else if str_eq(name, "integer") { Some(FieldType::Integer) }
    else if str_eq(name, "boolean") { Some(FieldType::Boolean) }
    else if str_eq(name, "decimal") { Some(FieldType::Decimal) }
    else if str_eq(name, "float") { Some(FieldType::Float) }
    else if str_eq(name, "date_time") { Some(FieldType::DateTime) }
    else if str_eq(name, "date") { Some(FieldType::Date) }
    else if str_eq(name, "time") { Some(FieldType::Time) }
    else if str_eq(name, "reference") { Some(FieldType::Reference) }
    else if str_eq(name, "journal") { Some(FieldType::Journal) }
    else if str_eq(name, "journal_input") { Some(FieldType::JournalInput) }
    else if str_eq(name, "glide_list") { Some(FieldType::GlideList) }
    else if str_eq(name, "url") { Some(FieldType::Url) }
    else if str_eq(name, "email") { Some(FieldType::Email) }
    else if str_eq(name, "phone") { Some(FieldType::Phone) }
    else if str_eq(name, "currency") { Some(FieldType::Currency) }
    else if str_eq(name, "price") { Some(FieldType::Price) }
    else if str_eq(name, "html") { Some(FieldType::Html) }
    else if str_eq(name, "script") { Some(FieldType::Script) }
    else if str_eq(name, "conditions") { Some(FieldType::Conditions) }
    else if str_eq(name, "document_id") { Some(FieldType::DocumentId) }
    else if str_eq(name, "sys_class_name") { Some(FieldType::SysClassName) }
    else if str_eq(name, "domain_id") { Some(FieldType::DomainId) }
    else if str_eq(name, "other") { Some(FieldType::Other) }
    else { None }
}

fn read_relationship_type(name: &str) -> (r: Option<RelationshipType>)
    ensures
        r == spec_relationship_type(name@),
{
    if str_eq(name, "one_to_many") {
        Some(RelationshipType::OneToMany)
    } else if str_eq(name, "many_to_one") {
        Some(RelationshipType::ManyToOne)
    } else if str_eq(name, "many_to_many") {
        Some(RelationshipType::ManyToMany)
    } else {
        None
    }
}

fn read_string_map(m: &Vec<(String, JsonValue)>) -> (r: Result<StrMap<String>, Error>)
    ensures
        match r {
            Ok(mm) => spec_string_map(m@) == Some(mm.deep()),
            Err(e) => spec_string_map(m@).is_none() && e matches Error::Schema(_),
        },
{
    let mut out: StrMap<String> = StrMap::new();
    let n = m.len();
    let mut i: usize = 0;
    assert(m@.take(0) =~= Seq::<(String, JsonValue)>::empty());
    assert(out.deep() =~= Map::<Seq<char>, Seq<char>>::empty());
    while i < n
        invariant
            0 <= i <= n == m@.len(),
            spec_string_map(m@.take(i as int)) == Some(out.deep()),
        decreases n - i,
    {
        assert(m@.take(i + 1).drop_last() =~= m@.take(i as int));
        assert(m@.take(i + 1).last() == m@[i as int]);
        match &m[i].1 {
            JsonValue::String(s) => {
                let ghost prev = out.deep();
                out.insert(m[i].0.clone(), s.clone());
                assert(out.deep() =~= prev.insert(m@[i as int].0@, s@));
            },
            _ => {
                proof {
                    lemma_string_map_fails(m@, i as int);
                }
                return Err(bad("expected string choices"));
            },
        }
        i = i + 1;
    }
    assert(m@.take(n as int) =~= m@);
    Ok(out)
}

proof fn lemma_string_map_fails(m: Seq<(String, JsonValue)>, i: int)
    requires
        0 <= i < m.len(),
        !(m[i].1 is String),
    ensures
        spec_string_map(m).is_none(),
    decreases m.len(),
{
    if i < m.len() - 1 {
        assert(m.drop_last()[i] == m[i]);
        lemma_string_map_fails(m.drop_last(), i);
    }
}

/// Read a field definition.
pub fn read_field_def(v: &JsonValue) -> (r: Result<FieldDef, Error>)
    ensures
        match r {
            Ok(d) => spec_field_def(*v) == Some(d@),
            Err(e) => spec_field_def(*v).is_none() && e matches Error::Schema(_),
        },
{
    match v {
        JsonValue::Object(m) => {
            let tn = read_req_string(member_ref(m, "type"));
            let ml = read_opt_u32(member_ref(m, "max_length"));
            let ro = read_flag(member_ref(m, "read_only"));
            let md = read_flag(member_ref(m, "mandatory"));
            let wo = read_flag(member_ref(m, "write_only"));
            let rt = read_opt_string(member_ref(m, "reference_table"));
            let lb = read_opt_string(member_ref(m, "label"));
            let ch: Result<Option<StrMap<String>>, Error> = match member_ref(m, "choices") {
                None => Ok(None),
                Some(JsonValue::Null) => Ok(None),
                Some(JsonValue::Object(cm)) => match read_string_map(cm) {
                    Ok(mm) => Ok(Some(mm)),
                    Err(e) => Err(e),
                },
                _ => Err(bad("expected an object of choices")),
            };
            let ft = match &tn {
                Ok(n) => read_field_type(n.as_str()),
                Err(_) => None,
            };
            match (ft, ml, ro, md, wo, ch, rt, lb) {
                (Some(field_type), Ok(max_length), Ok(read_only), Ok(mandatory), Ok(write_only), Ok(choices), Ok(reference_table), Ok(label)) => {
                    Ok(FieldDef { field_type, max_length, read_only, mandatory, write_only, choices, reference_table, label })
                },
                _ => Err(bad("invalid field definition")),
            }
        },
        _ => Err(bad("expected a field definition object")),
    }
}

/// Read a relationship definition.
pub fn read_relationship_def(v: &JsonValue) -> (r: Result<RelationshipDef, Error>)
    ensures
        match r {
            Ok(d) => spec_relationship_def(*v) == Some(d@),
            Err(e) => spec_relationship_def(*v).is_none() && e matches Error::Schema(_),
        },
{
    match v {
        JsonValue::Object(m) => {
            let t = read_req_string(member_ref(m, "table"));
            let fk = read_req_string(member_ref(m, "foreign_key"));
            let tn = read_req_string(member_ref(m, "type"));
            let f = read_opt_string(member_ref(m, "filter"));
            let rt = match &tn {
                Ok(n) => read_relationship_type(n.as_str()),
                Err(_) => None,
            };
            match (t, fk, rt, f) {
                (Ok(table), Ok(foreign_key), Some(relationship_type), Ok(filter)) => {
                    Ok(RelationshipDef { table, foreign_key, relationship_type, filter })
                },
                _ => Err(bad("invalid relationship definition")),
            }
        },
        _ => Err(bad("expected a relationship definition object")),
    }
}

fn read_field_map(v: Option<&JsonValue>) -> (r: Result<StrMap<FieldDef>, Error>)
    ensures
        match r {
            Ok(mm) => spec_fields_member(opt_deref(v)) == Some(mm.deep()),
            Err(e) => spec_fields_member(opt_deref(v)).is_none() && e matches Error::Schema(_),
        },
{
    let m = match v {
        None => {
            let out: StrMap<FieldDef> = StrMap::new();
            assert(out.deep() =~= Map::<Seq<char>, FieldDefView>::empty());
            return Ok(out);
        },
        Some(JsonValue::Object(m)) => m,
        _ => {
            return Err(bad("expected an object of fields"));
        },
    };
    let mut out: StrMap<FieldDef> = StrMap::new();
    let n = m.len();
    let mut i: usize = 0;
    assert(m@.take(0) =~= Seq::<(String, JsonValue)>::empty());
    assert(out.deep() =~= Map::<Seq<char>, FieldDefView>::empty());
    assert(spec_fields_member(opt_deref(v)) == spec_field_map(m@));
    while i < n
        invariant
            0 <= i <= n == m@.len(),
            spec_fields_member(opt_deref(v)) == spec_field_map(m@),
            spec_field_map(m@.take(i as int)) == Some(out.deep()),
        decreases n - i,
    {
        assert(m@.take(i + 1).drop_last() =~= m@.take(i as int));
        assert(m@.take(i + 1).last() == m@[i as int]);
        let d = match read_field_def(&m[i].1) {
            Ok(d) => d,
            Err(e) => {
                proof {
                    lemma_field_map_fails(m@, i as int);
                }
                return Err(e);
            },
        };
        let ghost prev = out.deep();
        let ghost dv = d@;
        out.insert(m[i].0.clone(), d);
        assert(out.deep() =~= prev.insert(m@[i as int].0@, dv));
        i = i + 1;
    }
    assert(m@.take(n as int) =~= m@);
    Ok(out)
}

proof fn lemma_field_map_fails(m: Seq<(String, JsonValue)>, i: int)
    requires
        0 <= i < m.len(),
        spec_field_def(m[i].1).is_none(),
    ensures
        spec_field_map(m).is_none(),
    decreases m.len(),
{
    if i < m.len() - 1 {
        assert(m.drop_last()[i] == m[i]);
        lemma_field_map_fails(m.drop_last(), i);
    }
}

fn read_relationship_map(v: Option<&JsonValue>) -> (r: Result<StrMap<RelationshipDef>, Error>)
    ensures
        match r {
            Ok(mm) => spec_relationships_member(opt_deref(v)) == Some(mm.deep()),
            Err(e) => spec_relationships_member(opt_deref(v)).is_none() && e matches Error::Schema(_),
        },
{
    let m = match v {
        None => {
            let out: StrMap<RelationshipDef> = StrMap::new();
            assert(out.deep() =~= Map::<Seq<char>, RelationshipView>::empty());
            return Ok(out);
        },
        Some(JsonValue::Object(m)) => m,
        _ => {
            return Err(bad("expected an object of relationships"));
        },
    };
    let mut out: StrMap<RelationshipDef> = StrMap::new();
    let n = m.len();
    let mut i: usize = 0;
    assert(m@.take(0) =~= Seq::<(String, JsonValue)>::empty());
    assert(out.deep() =~= Map::<Seq<char>, RelationshipView>::empty());
    assert(spec_relationships_member(opt_deref(v)) == spec_relationship_map(m@));
    while i < n
        invariant
            0 <= i <= n == m@.len(),
            spec_relationships_member(opt_deref(v)) == spec_relationship_map(m@),
            spec_relationship_map(m@.take(i as int)) == Some(out.deep()),
        decreases n - i,
    {
        assert(m@.take(i + 1).drop_last() =~= m@.take(i as int));
        assert(m@.take(i + 1).last() == m@[i as int]);
        let d = match read_relationship_def(&m[i].1) {
            Ok(d) => d,
            Err(e) => {
                proof {
                    lemma_relationship_map_fails(m@, i as int);
                }
                return Err(e);
            },
        };
        let ghost prev = out.deep();
        let ghost dv = d@;
        out.insert(m[i].0.clone(), d);
        assert(out.deep() =~= prev.insert(m@[i as int].0@, dv));
        i = i + 1;
    }
    assert(m@.take(n as int) =~= m@);
    Ok(out)
}

proof fn lemma_relationship_map_fails(m: Seq<(String, JsonValue)>, i: int)
    requires
        0 <= i < m.len(),
        spec_relationship_def(m[i].1).is_none(),
    ensures
        spec_relationship_map(m).is_none(),
    decreases m.len(),
{
    if i < m.len() - 1 {
        assert(m.drop_last()[i] == m[i]);
        lemma_relationship_map_fails(m.drop_last(), i);
    }
}

/// Read a table overlay.
pub fn read_table_overlay(v: &JsonValue) -> (r: Result<TableOverlay, Error>)
    ensures
        match r {
            Ok(d) => spec_table_overlay(*v) == Some(d@),
            Err(e) => spec_table_overlay(*v).is_none() && e matches Error::Schema(_),
        },
{
    match v {
        JsonValue::Object(m) => {
            let l = read_opt_string(member_ref(m, "label"));
            let e = read_opt_string(member_ref(m, "extends"));
            let f = read_field_map(member_ref(m, "fields"));
            let r = read_relationship_map(member_ref(m, "relationships"));
            match (l, e, f, r) {
                (Ok(label), Ok(extends), Ok(fields), Ok(relationships)) => {
                    Ok(TableOverlay { label, extends, fields, relationships })
                },
                _ => Err(bad("invalid table overlay")),
            }
        },
        _ => Err(bad("expected a table overlay object")),
    }
}

/// Read a table definition.
pub fn read_table_def(v: &JsonValue) -> (r: Result<TableDef, Error>)
    ensures
        match r {
            Ok(d) => spec_table_def(*v) == Some(d@),
            Err(e) => spec_table_def(*v).is_none() && e matches Error::Schema(_),
        },
{
    match v {
        JsonValue::Object(m) => {
            let l = read_req_string(member_ref(m, "label"));
            let e = read_opt_string(member_ref(m, "extends"));
            let f = read_field_map(member_ref(m, "fields"));
            let r = read_relationship_map(member_ref(m, "relationships"));
            match (l, e, f, r) {
                (Ok(label), Ok(extends), Ok(fields), Ok(relationships)) => {
                    Ok(TableDef { label, extends, fields, relationships })
                },
                _ => Err(bad("invalid table definition")),
            }
        },
        _ => Err(bad("expected a table definition object")),
    }
}

proof fn lemma_overlay_tables_fails(m: Seq<(String, JsonValue)>, i: int)
    requires
        0 <= i < m.len(),
        spec_table_overlay(m[i].1).is_none(),
    ensures
        spec_overlay_tables(m).is_none(),
    decreases m.len(),
{
    if i < m.len() - 1 {
        assert(m.drop_last()[i] == m[i]);
        lemma_overlay_tables_fails(m.drop_last(), i);
    }
}

proof fn lemma_definition_tables_fails(m: Seq<(String, JsonValue)>, i: int)
    requires
        0 <= i < m.len(),
        spec_table_def(m[i].1).is_none(),
    ensures
        spec_definition_tables(m).is_none(),
    decreases m.len(),
{
    if i < m.len() - 1 {
        assert(m.drop_last()[i] == m[i]);
        lemma_definition_tables_fails(m.drop_last(), i);
    }
}

/// Read a schema overlay from a JSON value.
pub fn overlay_from_json(v: &JsonValue) -> (r: Result<SchemaOverlay, Error>)
    ensures
        match r {
            Ok(o) => spec_overlay(*v) == Some((o.extends_release@, o.tables.deep())),
            Err(e) => spec_overlay(*v).is_none() && e matches Error::Schema(_),
        },
{
    let m = match v {
        JsonValue::Object(m) => m,
        _ => {
            return Err(bad("expected an overlay object"));
        },
    };
    let rel = match read_req_string(member_ref(m, "extends_release")) {
        Ok(s) => s,
        Err(e) => {
            return Err(e);
        },
    };
    let tm = match member_ref(m, "tables") {
        None => {
            let out: StrMap<TableOverlay> = StrMap::new();
            assert(out.deep() =~= Map::<Seq<char>, TableOverlayView>::empty());
            return Ok(SchemaOverlay { extends_release: rel, tables: out });
        },
        Some(JsonValue::Object(tm)) => tm,
        _ => {
            return Err(bad("expected an object of tables"));
        },
    };
    let mut out: StrMap<TableOverlay> = StrMap::new();
    let n = tm.len();
    let mut i: usize = 0;
    assert(tm@.take(0) =~= Seq::<(String, JsonValue)>::empty());
    assert(out.deep() =~= Map::<Seq<char>, TableOverlayView>::empty());
    assert(spec_overlay_tables(tm@).is_none() ==> spec_overlay(*v).is_none());
    assert(spec_overlay_tables(tm@) matches Some(t) ==> spec_overlay(*v) == Some((rel@, t)));
    while i < n
        invariant
            0 <= i <= n == tm@.len(),
            spec_overlay_tables(tm@).is_none() ==> spec_overlay(*v).is_none(),
            spec_overlay_tables(tm@) matches Some(t) ==> spec_overlay(*v) == Some((rel@, t)),
            spec_overlay_tables(tm@.take(i as int)) == Some(out.deep()),
        decreases n - i,
    {
        assert(tm@.take(i + 1).drop_last() =~= tm@.take(i as int));
        assert(tm@.take(i + 1).last() == tm@[i as int]);
        let d = match read_table_overlay(&tm[i].1) {
            Ok(d) => d,
            Err(e) => {
                proof {
                    lemma_overlay_tables_fails(tm@, i as int);
                }
                return Err(e);
            },
        };
        let ghost prev = out.deep();
        let ghost dv = d@;
        out.insert(tm[i].0.clone(), d);
        assert(out.deep() =~= prev.insert(tm@[i as int].0@, dv));
        i = i + 1;
    }
    assert(tm@.take(n as int) =~= tm@);
    Ok(SchemaOverlay { extends_release: rel, tables: out })
}

/// Read a schema definition from a JSON value.
pub fn definition_from_json(v: &JsonValue) -> (r: Result<SchemaDefinition, Error>)
    ensures
        match r {
            Ok(d) => spec_definition(*v) == Some((d.release@, d.tables.deep())),
            Err(e) => spec_definition(*v).is_none() && e matches Error::Schema(_),
        },
{
    let m = match v {
        JsonValue::Object(m) => m,
        _ => {
            return Err(bad("expected a definition object"));
        },
    };
    let rel = match read_req_string(member_ref(m, "release")) {
        Ok(s) => s,
        Err(e) => {
            return Err(e);
        },
    };
    let tm = match member_ref(m, "tables") {
        Some(JsonValue::Object(tm)) => tm,
        _ => {
            return Err(bad("expected an object of tables"));
        },
    };
    let mut out: StrMap<TableDef> = StrMap::new();
    let n = tm.len();
    let mut i: usize = 0;
    assert(tm@.take(0) =~= Seq::<(String, JsonValue)>::empty());
    assert(out.deep() =~= Map::<Seq<char>, TableView>::empty());
    assert(spec_definition_tables(tm@).is_none() ==> spec_definition(*v).is_none());
    assert(spec_definition_tables(tm@) matches Some(t) ==> spec_definition(*v) == Some((rel@, t)));
    while i < n
        invariant
            0 <= i <= n == tm@.len(),
            spec_definition_tables(tm@).is_none() ==> spec_definition(*v).is_none(),
            spec_definition_tables(tm@) matches Some(t) ==> spec_definition(*v) == Some((rel@, t)),
            spec_definition_tables(tm@.take(i as int)) == Some(out.deep()),
        decreases n - i,
    {
        assert(tm@.take(i + 1).drop_last() =~= tm@.take(i as int));
        assert(tm@.take(i + 1).last() == tm@[i as int]);
        let d = match read_table_def(&tm[i].1) {
            Ok(d) => d,
            Err(e) => {
                proof {
                    lemma_definition_tables_fails(tm@, i as int);
                }
                return Err(e);
            },
        };
        let ghost prev = out.deep();
        let ghost dv = d@;
        out.insert(tm[i].0.clone(), d);
        assert(out.deep() =~= prev.insert(tm@[i as int].0@, dv));
        i = i + 1;
    }
    assert(tm@.take(n as int) =~= tm@);
    Ok(SchemaDefinition { release: rel, tables: out })
}

/// The error of a failed load: the schema message behind `prefix`.
pub open spec fn spec_load_error(prefix: Seq<char>, json: Seq<char>, e: Error) -> bool {
    e matches Error::Schema(m) && match spec_parse_json(json) {
        Err(msg) => m@ == prefix + msg,
        Ok(_) => m@.len() >= prefix.len() && m@.take(prefix.len() as int) == prefix,
    }
}

fn with_prefix(prefix: &str, e: Error) -> (r: Error)
    requires
        e matches Error::Schema(_),
    ensures
        r matches Error::Schema(m) && m@.len() >= prefix@.len() && m@.take(prefix@.len() as int) == prefix@,
{
    match e {
        Error::Schema(detail) => {
            let mut m = owned(prefix);
            push_str(&mut m, detail.as_str());
            assert(m@.take(prefix@.len() as int) =~= prefix@);
            Error::Schema(m)
        },
        other => other,
    }
}

fn definition_with_prefix(json: &str, prefix: &str) -> (r: Result<SchemaDefinition, Error>)
    ensures
        match r {
            Ok(d) => spec_parse_json(json@) matches Ok(v) && spec_definition(v) == Some((d.release@, d.tables.deep())),
            Err(e) => spec_load_error(prefix@, json@, e) && (spec_parse_json(json@) is Err
                || (spec_parse_json(json@) matches Ok(v) && spec_definition(v).is_none())),
        },
{
    match parse_json(json) {
        Ok(v) => match definition_from_json(&v) {
            Ok(d) => Ok(d),
            Err(e) => Err(with_prefix(prefix, e)),
        },
        Err(msg) => {
            let mut m = owned(prefix);
            push_str(&mut m, msg.as_str());
            Err(Error::Schema(m))
        },
    }
}

fn overlay_with_prefix(json: &str, prefix: &str) -> (r: Result<SchemaOverlay, Error>)
    ensures
        match r {
            Ok(o) => spec_parse_json(json@) matches Ok(v) && spec_overlay(v) == Some((o.extends_release@, o.tables.deep())),
            Err(e) => spec_load_error(prefix@, json@, e) && (spec_parse_json(json@) is Err
                || (spec_parse_json(json@) matches Ok(v) && spec_overlay(v).is_none())),
        },
{
    match parse_json(json) {
        Ok(v) => match overlay_from_json(&v) {
            Ok(o) => Ok(o),
            Err(e) => Err(with_prefix(prefix, e)),
        },
        Err(msg) => {
            let mut m = owned(prefix);
            push_str(&mut m, msg.as_str());
            Err(Error::Schema(m))
        },
    }
}

/// Load a schema definition from a JSON string.
pub fn load_definition_from_str(json: &str) -> (r: Result<SchemaDefinition, Error>)
    ensures
        match r {
            Ok(d) => spec_parse_json(json@) matches Ok(v) && spec_definition(v) == Some((d.release@, d.tables.deep())),
            Err(e) => spec_load_error("failed to parse schema JSON: "@, json@, e) && (spec_parse_json(json@) is Err
                || (spec_parse_json(json@) matches Ok(v) && spec_definition(v).is_none())),
        },
{
    definition_with_prefix(json, "failed to parse schema JSON: ")
}

/// Load a schema overlay from a JSON string.
pub fn load_overlay_from_str(json: &str) -> (r: Result<SchemaOverlay, Error>)
    ensures
        match r {
            Ok(o) => spec_parse_json(json@) matches Ok(v) && spec_overlay(v) == Some((o.extends_release@, o.tables.deep())),
            Err(e) => spec_load_error("failed to parse overlay JSON: "@, json@, e) && (spec_parse_json(json@) is Err
                || (spec_parse_json(json@) matches Ok(v) && spec_overlay(v).is_none())),
        },
{
    overlay_with_prefix(json, "failed to parse overlay JSON: ")
}

/// Load a schema definition from the text of the file at `path`.
pub fn load_definition_from_file_text(path: &str, content: &str) -> (r: Result<SchemaDefinition, Error>)
    ensures
        match r {
            Ok(d) => spec_parse_json(content@) matches Ok(v) && spec_definition(v) == Some((d.release@, d.tables.deep())),
            Err(e) => spec_load_error("failed to parse schema file "@ + path@ + ": "@, content@, e) && (
            spec_parse_json(content@) is Err || (spec_parse_json(content@) matches Ok(v) && spec_definition(v).is_none())),
        },
{
    let mut prefix = owned("failed to parse schema file ");
    push_str(&mut prefix, path);
    push_str(&mut prefix, ": ");
    definition_with_prefix(content, prefix.as_str())
}

/// Load a schema overlay from the text of the file at `path`.
pub fn load_overlay_from_file_text(path: &str, content: &str) -> (r: Result<SchemaOverlay, Error>)
    ensures
        match r {
            Ok(o) => spec_parse_json(content@) matches Ok(v) && spec_overlay(v) == Some((o.extends_release@, o.tables.deep())),
            Err(e) => spec_load_error("failed to parse overlay file "@ + path@ + ": "@, content@, e) && (
            spec_parse_json(content@) is Err || (spec_parse_json(content@) matches Ok(v) && spec_overlay(v).is_none())),
        },
{
    let mut prefix = owned("failed to parse overlay file ");
    push_str(&mut prefix, path);
    push_str(&mut prefix, ": ");
    overlay_with_prefix(content, prefix.as_str())
}

}
