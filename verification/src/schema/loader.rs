//! Merging overlays into schema definitions, and the bundled release schemas.

use vstd::prelude::*;
use crate::error::Error;
use crate::schema::definition::{
    FieldDef, FieldDefView, FieldType, RelationshipDef, RelationshipType, RelationshipView,
    SchemaDefinition, SchemaOverlay, TableDef, TableOverlayView, TableView,
};
use crate::schema::relationships::spec_child_relation;
use crate::strmap::{Duplicate, StrMap};
use crate::text::{concat, owned, str_eq};

verus! {

/// A table after one overlay table is merged into the base tables: the
/// overlay's fields and relationships win, and its label and parent replace
/// the base's where given. A table new to the base takes its name as label
/// when the overlay gives none.
pub open spec fn spec_merge_table(
    name: Seq<char>,
    base: Map<Seq<char>, TableView>,
    ov: TableOverlayView,
) -> TableView {
    if base.contains_key(name) {
        let b = base[name];
        (
            match ov.0 {
                Some(l) => l,
                None => b.0,
            },
            match ov.1 {
                Some(e) => Some(e),
                None => b.1,
            },
            b.2.union_prefer_right(ov.2),
            b.3.union_prefer_right(ov.3),
        )
    } else {
        (
            match ov.0 {
                Some(l) => l,
                None => name,
            },
            ov.1,
            ov.2,
            ov.3,
        )
    }
}

/// The tables after an overlay is merged into them.
pub open spec fn spec_merge(
    base: Map<Seq<char>, TableView>,
    overlay: Map<Seq<char>, TableOverlayView>,
) -> Map<Seq<char>, TableView> {
    Map::new(
        |t: Seq<char>| base.contains_key(t) || overlay.contains_key(t),
        |t: Seq<char>|
            if overlay.contains_key(t) {
                spec_merge_table(t, base, overlay[t])
            } else {
                base[t]
            },
    )
}

/// Merge an overlay into a base schema definition.
///
/// New tables from the overlay are added; existing tables get their fields and
/// relationships merged with the overlay winning on conflict; a label or parent
/// given by the overlay replaces the base's.
pub fn merge_overlay(base: &mut SchemaDefinition, overlay: &SchemaOverlay)
    ensures
        final(base).release@ == old(base).release@,
        final(base).tables.deep() == spec_merge(old(base).tables.deep(), overlay.tables.deep()),
{
    let n = overlay.tables.len();
    let ghost keys = overlay.tables.key_seq();
    let ghost orig = base.tables.deep();
    let mut i: usize = 0;
    assert(spec_merge(orig, overlay.tables.deep().restrict(keys.take(0).to_set())) =~= orig);
    while i < n
        invariant
            0 <= i <= n == keys.len(),
            keys == overlay.tables.key_seq(),
            keys.no_duplicates(),
            forall|k: Seq<char>| #[trigger] overlay.tables@.contains_key(k) <==> keys.contains(k),
            base.release@ == old(base).release@,
            orig == old(base).tables.deep(),
            base.tables.deep() == spec_merge(
                orig,
                overlay.tables.deep().restrict(keys.take(i as int).to_set()),
            ),
        decreases n - i,
    {
        let (name, ov) = overlay.tables.entry_at(i);
        let ghost t = name@;
        let ghost ovv = ov@;
        let ghost prev = base.tables.deep();
        proof {
            assert(!keys.take(i as int).contains(t)) by {
                if keys.take(i as int).contains(t) {
                    let j = choose|j: int| 0 <= j < i && keys.take(i as int)[j] == t;
                    assert(keys[j] == keys[i as int]);
                }
            }
            assert(!keys.take(i as int).to_set().contains(t));
            assert(prev.contains_key(t) == orig.contains_key(t));
            if prev.contains_key(t) {
                assert(prev[t] == orig[t]);
            }
        }
        match base.tables.remove(name.as_str()) {
            Some(mut existing) => {
                existing.fields.insert_all(&ov.fields);
                existing.relationships.insert_all(&ov.relationships);
                match &ov.label {
                    Some(l) => {
                        existing.label = l.clone();
                    },
                    None => {},
                }
                match &ov.extends {
                    Some(e) => {
                        existing.extends = Some(e.clone());
                    },
                    None => {},
                }
                let ghost ev = existing@;
                base.tables.insert(name.clone(), existing);
                proof {
                    assert(ev == spec_merge_table(t, orig, ovv));
                    assert(base.tables.deep() =~= prev.insert(t, ev));
                }
            },
            None => {
                let label = match &ov.label {
                    Some(l) => l.clone(),
                    None => name.clone(),
                };
                let def = TableDef {
                    label,
                    extends: crate::schema::definition::dup_opt_string(&ov.extends),
                    fields: ov.fields.duplicate_map(),
                    relationships: ov.relationships.duplicate_map(),
                };
                let ghost dv = def@;
                base.tables.insert(name.clone(), def);
                proof {
                    assert(dv == spec_merge_table(t, orig, ovv));
                    assert(base.tables.deep() =~= prev.insert(t, dv));
                }
            },
        }
        proof {
            assert(keys.take(i + 1).to_set() =~= keys.take(i as int).to_set().insert(t)) by {
                assert(keys.take(i + 1) =~= keys.take(i as int).push(t));
                keys.take(i as int).lemma_push_to_set_commute(t);
            }
            assert(overlay.tables.deep()[t] == ovv);
            assert(base.tables.deep() =~= spec_merge(
                orig,
                overlay.tables.deep().restrict(keys.take(i + 1).to_set()),
            ));
        }
        i = i + 1;
    }
    proof {
        assert(keys.take(n as int) =~= keys);
        assert(keys.to_set() =~= overlay.tables.deep().dom());
        assert(overlay.tables.deep().restrict(keys.to_set()) =~= overlay.tables.deep());
    }
}

/// Applying the same overlay a second time changes nothing.
pub proof fn law_merge_idempotent(
    base: Map<Seq<char>, TableView>,
    overlay: Map<Seq<char>, TableOverlayView>,
)
    ensures
        spec_merge(spec_merge(base, overlay), overlay) == spec_merge(base, overlay),
{
    let once = spec_merge(base, overlay);
    assert forall|t: Seq<char>| #[trigger] once.contains_key(t) implies spec_merge(once, overlay)[t] == once[t] by {
        if overlay.contains_key(t) {
            let ov = overlay[t];
            assert(once[t].2.union_prefer_right(ov.2) =~= once[t].2);
            assert(once[t].3.union_prefer_right(ov.3) =~= once[t].3);
            if base.contains_key(t) {
                assert(base[t].2.union_prefer_right(ov.2).union_prefer_right(ov.2) =~= base[t].2.union_prefer_right(ov.2));
                assert(base[t].3.union_prefer_right(ov.3).union_prefer_right(ov.3) =~= base[t].3.union_prefer_right(ov.3));
            }
        }
    }
    assert(spec_merge(once, overlay) =~= once);
}

/// After merging, every field and relationship of the overlay is found on its
/// table with the overlay's definition.
pub proof fn law_merge_overlay_wins(
    base: Map<Seq<char>, TableView>,
    overlay: Map<Seq<char>, TableOverlayView>,
    table: Seq<char>,
    field: Seq<char>,
)
    requires
        overlay.contains_key(table),
    ensures
        overlay[table].2.contains_key(field) ==> spec_merge(base, overlay)[table].2[field]
            == overlay[table].2[field],
        overlay[table].3.contains_key(field) ==> spec_merge(base, overlay)[table].3[field]
            == overlay[table].3[field],
        spec_merge(base, overlay).contains_key(table),
{
}

/// Overlays are additive: after merging, every table of the base is still
/// there with every one of its fields and relationships, and a table that
/// the overlay does not name is left as it was.
pub proof fn law_merge_is_additive(
    base: Map<Seq<char>, TableView>,
    overlay: Map<Seq<char>, TableOverlayView>,
    table: Seq<char>,
    key: Seq<char>,
)
    requires
        base.contains_key(table),
    ensures
        spec_merge(base, overlay).contains_key(table),
        base[table].2.contains_key(key) ==> spec_merge(base, overlay)[table].2.contains_key(key),
        base[table].3.contains_key(key) ==> spec_merge(base, overlay)[table].3.contains_key(key),
        !overlay.contains_key(table) ==> spec_merge(base, overlay)[table] == base[table],
{
}

/// A field of the given type with the given flags and no further details.
pub open spec fn spec_field(t: FieldType, read_only: bool, write_only: bool) -> FieldDefView {
    (t, None, read_only, false, write_only, None, None, None)
}

/// A reference field to `table`.
pub open spec fn spec_reference(table: Seq<char>) -> FieldDefView {
    (FieldType::Reference, None, false, false, false, None, Some(table), None)
}

/// A one-to-many relationship.
pub open spec fn spec_one_to_many(table: Seq<char>, foreign_key: Seq<char>, filter: Option<Seq<char>>) -> RelationshipView {
    (table, foreign_key, RelationshipType::OneToMany, filter)
}

/// A table with a label, an optional parent, and no fields or relationships.
pub open spec fn spec_bare_table(label: Seq<char>, extends: Option<Seq<char>>) -> TableView {
    (label, extends, Map::empty(), Map::empty())
}

/// The bundled `task` table: the fields every task table shares, its
/// approvals and its Task SLAs.
pub open spec fn spec_task_table() -> TableView {
    (
        "Task"@,
        None,
        Map::empty()
            .insert("sys_id"@, (FieldType::String, Some(32u32), true, false, false, None, None, None))
            .insert("number"@, (FieldType::String, Some(40u32), true, false, false, None, None, None))
            .insert("state"@, spec_field(FieldType::Integer, false, false))
            .insert("priority"@, spec_field(FieldType::Integer, false, false))
            .insert("short_description"@, spec_field(FieldType::String, false, false))
            .insert("description"@, spec_field(FieldType::String, false, false))
            .insert("active"@, spec_field(FieldType::Boolean, false, false))
            .insert("assigned_to"@, spec_reference("sys_user"@))
            .insert("assignment_group"@, spec_reference("sys_user_group"@))
            .insert("cmdb_ci"@, spec_reference("cmdb_ci"@))
            .insert("parent"@, spec_reference("task"@))
            .insert("work_notes"@, spec_field(FieldType::JournalInput, false, true))
            .insert("comments"@, spec_field(FieldType::JournalInput, false, true))
            .insert("approval_history"@, spec_field(FieldType::Journal, true, false))
            .insert("sys_created_on"@, spec_field(FieldType::DateTime, true, false))
            .insert("sys_updated_on"@, spec_field(FieldType::DateTime, true, false))
            .insert("sys_created_by"@, spec_field(FieldType::String, true, false)),
        Map::empty()
            .insert("approvals"@, spec_one_to_many("sysapproval_approver"@, "sysapproval"@, None))
            .insert("task_sla"@, spec_one_to_many("task_sla"@, "task"@, None)),
    )
}

/// The bundled `sc_req_item` table.
pub open spec fn spec_ritm_table() -> TableView {
    (
        "Requested Item"@,
        Some("task"@),
        Map::empty()
            .insert("request"@, spec_reference("sc_request"@))
            .insert("requested_for"@, spec_reference("sys_user"@)),
        Map::empty().insert("sc_task"@, spec_one_to_many("sc_task"@, "request_item"@, None)),
    )
}

/// The bundled `sc_task` table.
pub open spec fn spec_sc_task_table() -> TableView {
    ("Catalog Task"@, Some("task"@), Map::empty().insert("request_item"@, spec_reference("sc_req_item"@)), Map::empty())
}

/// The bundled `sysapproval_approver` table.
pub open spec fn spec_approval_table() -> TableView {
    (
        "Approval"@,
        None,
        Map::empty()
            .insert("approver"@, spec_reference("sys_user"@))
            .insert("sysapproval"@, spec_reference("task"@))
            .insert("document_id"@, spec_field(FieldType::DocumentId, false, false))
            .insert("source_table"@, spec_field(FieldType::String, false, false))
            .insert("state"@, spec_field(FieldType::String, false, false))
            .insert("comments"@, spec_field(FieldType::JournalInput, false, true)),
        Map::empty(),
    )
}

/// The bundled `sys_user` table.
pub open spec fn spec_user_table() -> TableView {
    (
        "User"@,
        None,
        Map::empty()
            .insert("name"@, spec_field(FieldType::String, false, false))
            .insert("email"@, spec_field(FieldType::Email, false, false))
            .insert("manager"@, spec_reference("sys_user"@)),
        Map::empty(),
    )
}

/// The bundled `sys_user_group` table.
pub open spec fn spec_group_table() -> TableView {
    ("Group"@, None, Map::empty().insert("name"@, spec_field(FieldType::String, false, false)), Map::empty())
}

/// The bundled `sys_journal_field` table.
pub open spec fn spec_journal_table() -> TableView {
    (
        "Journal Entry"@,
        None,
        Map::empty()
            .insert("element_id"@, spec_field(FieldType::String, false, false))
            .insert("element"@, spec_field(FieldType::String, false, false))
            .insert("name"@, spec_field(FieldType::String, false, false))
            .insert("value"@, spec_field(FieldType::String, false, false)),
        Map::empty(),
    )
}

/// The bundled `task_sla` table.
pub open spec fn spec_task_sla_table() -> TableView {
    (
        "Task SLA"@,
        None,
        Map::empty()
            .insert("task"@, spec_reference("task"@))
            .insert("sla"@, spec_reference("contract_sla"@))
            .insert("stage"@, spec_field(FieldType::String, false, false))
            .insert("active"@, spec_field(FieldType::Boolean, false, false))
            .insert("has_breached"@, spec_field(FieldType::Boolean, false, false))
            .insert("start_time"@, spec_field(FieldType::DateTime, false, false))
            .insert("end_time"@, spec_field(FieldType::DateTime, false, false))
            .insert("planned_end_time"@, spec_field(FieldType::DateTime, false, false))
            .insert("original_breach_time"@, spec_field(FieldType::DateTime, false, false))
            .insert("percentage"@, spec_field(FieldType::Decimal, false, false))
            .insert("time_left"@, spec_field(FieldType::String, false, false))
            .insert("business_percentage"@, spec_field(FieldType::Decimal, false, false))
            .insert("business_time_left"@, spec_field(FieldType::String, false, false))
            .insert("business_duration"@, spec_field(FieldType::String, false, false))
            .insert("duration"@, spec_field(FieldType::String, false, false))
            .insert("schedule"@, spec_reference("cmn_schedule"@)),
        Map::empty(),
    )
}

/// The bundled `contract_sla` table.
pub open spec fn spec_contract_sla_table() -> TableView {
    (
        "SLA Definition"@,
        None,
        Map::empty()
            .insert("name"@, spec_field(FieldType::String, false, false))
            .insert("schedule"@, spec_reference("cmn_schedule"@))
            .insert("duration"@, spec_field(FieldType::String, false, false)),
        Map::empty(),
    )
}

/// The bundled `incident` table.
pub open spec fn spec_incident_table() -> TableView {
    (
        "Incident"@,
        Some("task"@),
        Map::empty()
            .insert("caller_id"@, spec_reference("sys_user"@))
            .insert("parent_incident"@, spec_reference("incident"@)),
        Map::empty().insert("child_incidents"@, spec_one_to_many("incident"@, "parent_incident"@, None)),
    )
}

/// The bundled `change_request` table.
pub open spec fn spec_change_table() -> TableView {
    (
        "Change Request"@,
        Some("task"@),
        Map::empty()
            .insert("risk"@, spec_field(FieldType::Integer, false, false))
            .insert("type"@, spec_field(FieldType::String, false, false))
            .insert("change_plan"@, spec_field(FieldType::String, false, false))
            .insert("backout_plan"@, spec_field(FieldType::String, false, false))
            .insert("start_date"@, spec_field(FieldType::DateTime, false, false))
            .insert("end_date"@, spec_field(FieldType::DateTime, false, false)),
        Map::empty()
            .insert("work_notes"@, spec_one_to_many("sys_journal_field"@, "element_id"@, Some("name=change_request"@)))
            .insert("change_task"@, spec_one_to_many("change_task"@, "change_request"@, None)),
    )
}

/// The bundled `change_task` table.
pub open spec fn spec_change_task_table() -> TableView {
    (
        "Change Task"@,
        Some("task"@),
        Map::empty()
            .insert("change_request"@, spec_reference("change_request"@))
            .insert("change_task_type"@, spec_field(FieldType::String, false, false)),
        Map::empty(),
    )
}

/// Every table of the bundled schema, by name. The three bundled releases
/// share this table set.
pub open spec fn spec_bundled_tables() -> Map<Seq<char>, TableView> {
    Map::empty()
        .insert("sc_req_item"@, spec_ritm_table())
        .insert("sc_request"@, spec_bare_table("Request"@, Some("task"@)))
        .insert("sc_task"@, spec_sc_task_table())
        .insert("sysapproval_approver"@, spec_approval_table())
        .insert("sys_user"@, spec_user_table())
        .insert("sys_user_group"@, spec_group_table())
        .insert("sys_journal_field"@, spec_journal_table())
        .insert("task_sla"@, spec_task_sla_table())
        .insert("contract_sla"@, spec_contract_sla_table())
        .insert("problem"@, spec_bare_table("Problem"@, Some("task"@)))
        .insert("change_task"@, spec_change_task_table())
        .insert("incident"@, spec_incident_table())
        .insert("change_request"@, spec_change_table())
        .insert("task"@, spec_task_table())
}

/// The bundled table names differ in length or in their first letter.
proof fn lemma_bundled_name_shapes()
    ensures
        "sc_req_item"@.len() == 11,
        "sc_req_item"@[0] == 's',
        "sc_request"@.len() == 10,
        "sc_request"@[0] == 's',
        "sc_task"@.len() == 7,
        "sc_task"@[0] == 's',
        "sysapproval_approver"@.len() == 20,
        "sysapproval_approver"@[0] == 's',
        "sys_user"@.len() == 8,
        "sys_user"@[0] == 's',
        "sys_user_group"@.len() == 14,
        "sys_user_group"@[0] == 's',
        "sys_journal_field"@.len() == 17,
        "sys_journal_field"@[0] == 's',
        "task_sla"@.len() == 8,
        "task_sla"@[0] == 't',
        "contract_sla"@.len() == 12,
        "contract_sla"@[0] == 'c',
        "problem"@.len() == 7,
        "problem"@[0] == 'p',
        "change_task"@.len() == 11,
        "change_task"@[0] == 'c',
        "incident"@.len() == 8,
        "incident"@[0] == 'i',
        "change_request"@.len() == 14,
        "change_request"@[0] == 'c',
        "task"@.len() == 4,
        "task"@[0] == 't',
{
    reveal_strlit("sc_req_item");
    reveal_strlit("sc_request");
    reveal_strlit("sc_task");
    reveal_strlit("sysapproval_approver");
    reveal_strlit("sys_user");
    reveal_strlit("sys_user_group");
    reveal_strlit("sys_journal_field");
    reveal_strlit("task_sla");
    reveal_strlit("contract_sla");
    reveal_strlit("problem");
    reveal_strlit("change_task");
    reveal_strlit("incident");
    reveal_strlit("change_request");
    reveal_strlit("task");
}

/// Every bundled one-to-many relationship, journal entries aside (those are
/// linked by the text of `element_id`), is keyed by a reference field of the
/// child table that points at the parent table itself: looking children up by
/// that field finds the children of the parent record.
pub proof fn law_bundled_foreign_keys_reference_parent(parent: Seq<char>, name: Seq<char>)
    requires
        spec_bundled_tables().contains_key(parent),
        spec_bundled_tables()[parent].3.contains_key(name),
        spec_bundled_tables()[parent].3[name].0 != "sys_journal_field"@,
    ensures
        ({
            let rel = spec_bundled_tables()[parent].3[name];
            &&& rel.2 == RelationshipType::OneToMany
            &&& spec_bundled_tables().contains_key(rel.0)
            &&& spec_bundled_tables()[rel.0].2.contains_key(rel.1)
            &&& spec_bundled_tables()[rel.0].2[rel.1] == spec_reference(parent)
        }),
{
    lemma_bundled_name_shapes();
    reveal_strlit("approvals");
    reveal_strlit("child_incidents");
    reveal_strlit("work_notes");
    reveal_strlit("sysapproval");
    reveal_strlit("approver");
    reveal_strlit("document_id");
    reveal_strlit("source_table");
    reveal_strlit("state");
    reveal_strlit("comments");
    reveal_strlit("sla");
    reveal_strlit("stage");
    reveal_strlit("active");
    reveal_strlit("has_breached");
    reveal_strlit("start_time");
    reveal_strlit("end_time");
    reveal_strlit("planned_end_time");
    reveal_strlit("original_breach_time");
    reveal_strlit("percentage");
    reveal_strlit("time_left");
    reveal_strlit("business_percentage");
    reveal_strlit("business_time_left");
    reveal_strlit("business_duration");
    reveal_strlit("duration");
    reveal_strlit("schedule");
    reveal_strlit("parent_incident");
    reveal_strlit("caller_id");
    reveal_strlit("request_item");
    reveal_strlit("change_request");
    reveal_strlit("change_task_type");
    let b = spec_bundled_tables();
    if parent == "task"@ {
        assert(b[parent] == spec_task_table());
        if name == "approvals"@ {
            assert(b["sysapproval_approver"@] == spec_approval_table());
            assert("sysapproval"@ != "document_id"@) by {
                assert("sysapproval"@[0] != "document_id"@[0]);
            }
            assert("sysapproval"@ != "source_table"@) by {
                assert("sysapproval"@.len() != "source_table"@.len());
            }
            assert("sysapproval"@ != "state"@) by {
                assert("sysapproval"@.len() != "state"@.len());
            }
            assert("sysapproval"@ != "comments"@) by {
                assert("sysapproval"@.len() != "comments"@.len());
            }
            assert(spec_approval_table().2["sysapproval"@] == spec_reference("task"@));
            assert(b["sysapproval_approver"@].2["sysapproval"@] == spec_reference("task"@));
        } else {
            assert(name == "task_sla"@);
            assert(b["task_sla"@] == spec_task_sla_table());
            assert(b["task_sla"@].2["task"@] == spec_reference("task"@));
        }
    } else if parent == "change_request"@ {
        assert(b[parent] == spec_change_table());
        assert(name != "work_notes"@);
        assert(name == "change_task"@);
        assert(b["change_task"@] == spec_change_task_table());
        assert(b["change_task"@].2["change_request"@] == spec_reference("change_request"@));
    } else if parent == "incident"@ {
        assert(b[parent] == spec_incident_table());
        assert(name == "child_incidents"@);
        assert(b["incident"@].2["parent_incident"@] == spec_reference("incident"@));
    } else if parent == "sc_req_item"@ {
        assert(b[parent] == spec_ritm_table());
        assert(name == "sc_task"@);
        assert(b["sc_task"@] == spec_sc_task_table());
        assert(b["sc_task"@].2["request_item"@] == spec_reference("sc_req_item"@));
    } else {
        assert(b[parent].3 == Map::<Seq<char>, RelationshipView>::empty());
    }
}

/// The parent tables whose child table `child_relation_for_table` names keep
/// that link in the bundled schema: each relationship from such a parent to
/// its child table uses the foreign key that function gives.
pub proof fn law_bundled_child_relations(parent: Seq<char>, name: Seq<char>)
    requires
        spec_bundled_tables().contains_key(parent),
        spec_bundled_tables()[parent].3.contains_key(name),
        spec_child_relation(parent) matches Some((child, _)) && spec_bundled_tables()[parent].3[name].0 == child,
    ensures
        spec_child_relation(parent) matches Some((_, fk)) && spec_bundled_tables()[parent].3[name].1 == fk,
{
    lemma_bundled_name_shapes();
    reveal_strlit("request_item");
    reveal_strlit("rm_story");
    reveal_strlit("work_notes");
    reveal_strlit("change_task");
    reveal_strlit("sc_task");
}

/// The bundled schema holds fourteen tables, so that lookups through
/// `extends` may walk that many.
pub proof fn lemma_bundled_table_count()
    ensures
        spec_bundled_tables().dom().len() == 14,
{
    reveal_strlit("sc_req_item");
    reveal_strlit("sc_request");
    reveal_strlit("sc_task");
    reveal_strlit("sysapproval_approver");
    reveal_strlit("sys_user");
    reveal_strlit("sys_user_group");
    reveal_strlit("sys_journal_field");
    reveal_strlit("task_sla");
    reveal_strlit("contract_sla");
    reveal_strlit("problem");
    reveal_strlit("change_task");
    reveal_strlit("incident");
    reveal_strlit("change_request");
    reveal_strlit("task");
    assert("sc_req_item"@ != "sc_request"@) by { assert("sc_req_item"@.len() != "sc_request"@.len()); }
    assert("sc_req_item"@ != "sc_task"@) by { assert("sc_req_item"@.len() != "sc_task"@.len()); }
    assert("sc_req_item"@ != "sysapproval_approver"@) by { assert("sc_req_item"@.len() != "sysapproval_approver"@.len()); }
    assert("sc_req_item"@ != "sys_user"@) by { assert("sc_req_item"@.len() != "sys_user"@.len()); }
    assert("sc_req_item"@ != "sys_user_group"@) by { assert("sc_req_item"@.len() != "sys_user_group"@.len()); }
    assert("sc_req_item"@ != "sys_journal_field"@) by { assert("sc_req_item"@.len() != "sys_journal_field"@.len()); }
    assert("sc_req_item"@ != "task_sla"@) by { assert("sc_req_item"@.len() != "task_sla"@.len()); }
    assert("sc_req_item"@ != "contract_sla"@) by { assert("sc_req_item"@.len() != "contract_sla"@.len()); }
    assert("sc_req_item"@ != "problem"@) by { assert("sc_req_item"@.len() != "problem"@.len()); }
    assert("sc_req_item"@ != "change_task"@) by { assert("sc_req_item"@[0] != "change_task"@[0]); }
    assert("sc_req_item"@ != "incident"@) by { assert("sc_req_item"@.len() != "incident"@.len()); }
    assert("sc_req_item"@ != "change_request"@) by { assert("sc_req_item"@.len() != "change_request"@.len()); }
    assert("sc_req_item"@ != "task"@) by { assert("sc_req_item"@.len() != "task"@.len()); }
    assert("sc_request"@ != "sc_task"@) by { assert("sc_request"@.len() != "sc_task"@.len()); }
    assert("sc_request"@ != "sysapproval_approver"@) by { assert("sc_request"@.len() != "sysapproval_approver"@.len()); }
    assert("sc_request"@ != "sys_user"@) by { assert("sc_request"@.len() != "sys_user"@.len()); }
    assert("sc_request"@ != "sys_user_group"@) by { assert("sc_request"@.len() != "sys_user_group"@.len()); }
    assert("sc_request"@ != "sys_journal_field"@) by { assert("sc_request"@.len() != "sys_journal_field"@.len()); }
    assert("sc_request"@ != "task_sla"@) by { assert("sc_request"@.len() != "task_sla"@.len()); }
    assert("sc_request"@ != "contract_sla"@) by { assert("sc_request"@.len() != "contract_sla"@.len()); }
    assert("sc_request"@ != "problem"@) by { assert("sc_request"@.len() != "problem"@.len()); }
    assert("sc_request"@ != "change_task"@) by { assert("sc_request"@.len() != "change_task"@.len()); }
    assert("sc_request"@ != "incident"@) by { assert("sc_request"@.len() != "incident"@.len()); }
    assert("sc_request"@ != "change_request"@) by { assert("sc_request"@.len() != "change_request"@.len()); }
    assert("sc_request"@ != "task"@) by { assert("sc_request"@.len() != "task"@.len()); }
    assert("sc_task"@ != "sysapproval_approver"@) by { assert("sc_task"@.len() != "sysapproval_approver"@.len()); }
    assert("sc_task"@ != "sys_user"@) by { assert("sc_task"@.len() != "sys_user"@.len()); }
    assert("sc_task"@ != "sys_user_group"@) by { assert("sc_task"@.len() != "sys_user_group"@.len()); }
    assert("sc_task"@ != "sys_journal_field"@) by { assert("sc_task"@.len() != "sys_journal_field"@.len()); }
    assert("sc_task"@ != "task_sla"@) by { assert("sc_task"@.len() != "task_sla"@.len()); }
    assert("sc_task"@ != "contract_sla"@) by { assert("sc_task"@.len() != "contract_sla"@.len()); }
    assert("sc_task"@ != "problem"@) by { assert("sc_task"@[0] != "problem"@[0]); }
    assert("sc_task"@ != "change_task"@) by { assert("sc_task"@.len() != "change_task"@.len()); }
    assert("sc_task"@ != "incident"@) by { assert("sc_task"@.len() != "incident"@.len()); }
    assert("sc_task"@ != "change_request"@) by { assert("sc_task"@.len() != "change_request"@.len()); }
    assert("sc_task"@ != "task"@) by { assert("sc_task"@.len() != "task"@.len()); }
    assert("sysapproval_approver"@ != "sys_user"@) by { assert("sysapproval_approver"@.len() != "sys_user"@.len()); }
    assert("sysapproval_approver"@ != "sys_user_group"@) by { assert("sysapproval_approver"@.len() != "sys_user_group"@.len()); }
    assert("sysapproval_approver"@ != "sys_journal_field"@) by { assert("sysapproval_approver"@.len() != "sys_journal_field"@.len()); }
    assert("sysapproval_approver"@ != "task_sla"@) by { assert("sysapproval_approver"@.len() != "task_sla"@.len()); }
    assert("sysapproval_approver"@ != "contract_sla"@) by { assert("sysapproval_approver"@.len() != "contract_sla"@.len()); }
    assert("sysapproval_approver"@ != "problem"@) by { assert("sysapproval_approver"@.len() != "problem"@.len()); }
    assert("sysapproval_approver"@ != "change_task"@) by { assert("sysapproval_approver"@.len() != "change_task"@.len()); }
    assert("sysapproval_approver"@ != "incident"@) by { assert("sysapproval_approver"@.len() != "incident"@.len()); }
    assert("sysapproval_approver"@ != "change_request"@) by { assert("sysapproval_approver"@.len() != "change_request"@.len()); }
    assert("sysapproval_approver"@ != "task"@) by { assert("sysapproval_approver"@.len() != "task"@.len()); }
    assert("sys_user"@ != "sys_user_group"@) by { assert("sys_user"@.len() != "sys_user_group"@.len()); }
    assert("sys_user"@ != "sys_journal_field"@) by { assert("sys_user"@.len() != "sys_journal_field"@.len()); }
    assert("sys_user"@ != "task_sla"@) by { assert("sys_user"@[0] != "task_sla"@[0]); }
    assert("sys_user"@ != "contract_sla"@) by { assert("sys_user"@.len() != "contract_sla"@.len()); }
    assert("sys_user"@ != "problem"@) by { assert("sys_user"@.len() != "problem"@.len()); }
    assert("sys_user"@ != "change_task"@) by { assert("sys_user"@.len() != "change_task"@.len()); }
    assert("sys_user"@ != "incident"@) by { assert("sys_user"@[0] != "incident"@[0]); }
    assert("sys_user"@ != "change_request"@) by { assert("sys_user"@.len() != "change_request"@.len()); }
    assert("sys_user"@ != "task"@) by { assert("sys_user"@.len() != "task"@.len()); }
    assert("sys_user_group"@ != "sys_journal_field"@) by { assert("sys_user_group"@.len() != "sys_journal_field"@.len()); }
    assert("sys_user_group"@ != "task_sla"@) by { assert("sys_user_group"@.len() != "task_sla"@.len()); }
    assert("sys_user_group"@ != "contract_sla"@) by { assert("sys_user_group"@.len() != "contract_sla"@.len()); }
    assert("sys_user_group"@ != "problem"@) by { assert("sys_user_group"@.len() != "problem"@.len()); }
    assert("sys_user_group"@ != "change_task"@) by { assert("sys_user_group"@.len() != "change_task"@.len()); }
    assert("sys_user_group"@ != "incident"@) by { assert("sys_user_group"@.len() != "incident"@.len()); }
    assert("sys_user_group"@ != "change_request"@) by { assert("sys_user_group"@[0] != "change_request"@[0]); }
    assert("sys_user_group"@ != "task"@) by { assert("sys_user_group"@.len() != "task"@.len()); }
    assert("sys_journal_field"@ != "task_sla"@) by { assert("sys_journal_field"@.len() != "task_sla"@.len()); }
    assert("sys_journal_field"@ != "contract_sla"@) by { assert("sys_journal_field"@.len() != "contract_sla"@.len()); }
    assert("sys_journal_field"@ != "problem"@) by { assert("sys_journal_field"@.len() != "problem"@.len()); }
    assert("sys_journal_field"@ != "change_task"@) by { assert("sys_journal_field"@.len() != "change_task"@.len()); }
    assert("sys_journal_field"@ != "incident"@) by { assert("sys_journal_field"@.len() != "incident"@.len()); }
    assert("sys_journal_field"@ != "change_request"@) by { assert("sys_journal_field"@.len() != "change_request"@.len()); }
    assert("sys_journal_field"@ != "task"@) by { assert("sys_journal_field"@.len() != "task"@.len()); }
    assert("task_sla"@ != "contract_sla"@) by { assert("task_sla"@.len() != "contract_sla"@.len()); }
    assert("task_sla"@ != "problem"@) by { assert("task_sla"@.len() != "problem"@.len()); }
    assert("task_sla"@ != "change_task"@) by { assert("task_sla"@.len() != "change_task"@.len()); }
    assert("task_sla"@ != "incident"@) by { assert("task_sla"@[0] != "incident"@[0]); }
    assert("task_sla"@ != "change_request"@) by { assert("task_sla"@.len() != "change_request"@.len()); }
    assert("task_sla"@ != "task"@) by { assert("task_sla"@.len() != "task"@.len()); }
    assert("contract_sla"@ != "problem"@) by { assert("contract_sla"@.len() != "problem"@.len()); }
    assert("contract_sla"@ != "change_task"@) by { assert("contract_sla"@.len() != "change_task"@.len()); }
    assert("contract_sla"@ != "incident"@) by { assert("contract_sla"@.len() != "incident"@.len()); }
    assert("contract_sla"@ != "change_request"@) by { assert("contract_sla"@.len() != "change_request"@.len()); }
    assert("contract_sla"@ != "task"@) by { assert("contract_sla"@.len() != "task"@.len()); }
    assert("problem"@ != "change_task"@) by { assert("problem"@.len() != "change_task"@.len()); }
    assert("problem"@ != "incident"@) by { assert("problem"@.len() != "incident"@.len()); }
    assert("problem"@ != "change_request"@) by { assert("problem"@.len() != "change_request"@.len()); }
    assert("problem"@ != "task"@) by { assert("problem"@.len() != "task"@.len()); }
    assert("change_task"@ != "incident"@) by { assert("change_task"@.len() != "incident"@.len()); }
    assert("change_task"@ != "change_request"@) by { assert("change_task"@.len() != "change_request"@.len()); }
    assert("change_task"@ != "task"@) by { assert("change_task"@.len() != "task"@.len()); }
    assert("incident"@ != "change_request"@) by { assert("incident"@.len() != "change_request"@.len()); }
    assert("incident"@ != "task"@) by { assert("incident"@.len() != "task"@.len()); }
    assert("change_request"@ != "task"@) by { assert("change_request"@.len() != "task"@.len()); }
    let s0 = Set::<Seq<char>>::empty();
    assert(s0.len() == 0);
    assert(!s0.contains("sc_req_item"@));
    let s1 = s0.insert("sc_req_item"@);
    assert(s1.len() == 1);
    assert(!s1.contains("sc_request"@));
    let s2 = s1.insert("sc_request"@);
    assert(s2.len() == 2);
    assert(!s2.contains("sc_task"@));
    let s3 = s2.insert("sc_task"@);
    assert(s3.len() == 3);
    assert(!s3.contains("sysapproval_approver"@));
    let s4 = s3.insert("sysapproval_approver"@);
    assert(s4.len() == 4);
    assert(!s4.contains("sys_user"@));
    let s5 = s4.insert("sys_user"@);
    assert(s5.len() == 5);
    assert(!s5.contains("sys_user_group"@));
    let s6 = s5.insert("sys_user_group"@);
    assert(s6.len() == 6);
    assert(!s6.contains("sys_journal_field"@));
    let s7 = s6.insert("sys_journal_field"@);
    assert(s7.len() == 7);
    assert(!s7.contains("task_sla"@));
    let s8 = s7.insert("task_sla"@);
    assert(s8.len() == 8);
    assert(!s8.contains("contract_sla"@));
    let s9 = s8.insert("contract_sla"@);
    assert(s9.len() == 9);
    assert(!s9.contains("problem"@));
    let s10 = s9.insert("problem"@);
    assert(s10.len() == 10);
    assert(!s10.contains("change_task"@));
    let s11 = s10.insert("change_task"@);
    assert(s11.len() == 11);
    assert(!s11.contains("incident"@));
    let s12 = s11.insert("incident"@);
    assert(s12.len() == 12);
    assert(!s12.contains("change_request"@));
    let s13 = s12.insert("change_request"@);
    assert(s13.len() == 13);
    assert(!s13.contains("task"@));
    let s14 = s13.insert("task"@);
    assert(s14.len() == 14);
    let d = s14;
    assert(spec_bundled_tables().dom() =~= d);
}

/// Whether a release has a bundled schema.
pub open spec fn spec_known_release(release: Seq<char>) -> bool {
    release == "xanadu"@ || release == "yokohama"@ || release == "washington"@
}

/// Store `v` under `name`.
fn put<V: View>(m: &mut StrMap<V>, name: &str, v: V)
    ensures
        final(m).deep() == old(m).deep().insert(name@, v@),
{
    let ghost vv = v@;
    m.insert(owned(name), v);
    assert(m.deep() =~= old(m).deep().insert(name@, vv));
}

fn field(field_type: FieldType, read_only: bool, write_only: bool) -> (r: FieldDef)
    ensures
        r@ == spec_field(field_type, read_only, write_only),
{
    FieldDef {
        field_type,
        max_length: None,
        read_only,
        mandatory: false,
        write_only,
        choices: None,
        reference_table: None,
        label: None,
    }
}

fn reference(table: &str) -> (r: FieldDef)
    ensures
        r@ == spec_reference(table@),
{
    let mut f = field(FieldType::Reference, false, false);
    f.reference_table = Some(owned(table));
    f
}

fn one_to_many(table: &str, foreign_key: &str, filter: Option<&str>) -> (r: RelationshipDef)
    ensures
        r@ == spec_one_to_many(
            table@,
            foreign_key@,
            match filter {
                Some(f) => Some(f@),
                None => None,
            },
        ),
{
    RelationshipDef {
        table: owned(table),
        foreign_key: owned(foreign_key),
        relationship_type: RelationshipType::OneToMany,
        filter: match filter {
            Some(f) => Some(owned(f)),
            None => None,
        },
    }
}

fn table(label: &str, extends: Option<&str>) -> (r: TableDef)
    ensures
        r@ == spec_bare_table(
            label@,
            match extends {
                Some(e) => Some(e@),
                None => None,
            },
        ),
{
    let r = TableDef {
        label: owned(label),
        extends: match extends {
            Some(e) => Some(owned(e)),
            None => None,
        },
        fields: StrMap::new(),
        relationships: StrMap::new(),
    };
    assert(r.fields.deep() =~= Map::<Seq<char>, FieldDefView>::empty());
    assert(r.relationships.deep() =~= Map::<Seq<char>, RelationshipView>::empty());
    r
}

fn task_table() -> (r: TableDef)
    ensures
        r@ == spec_task_table(),
{
    let mut t = table("Task", None);
    let mut sys_id = field(FieldType::String, true, false);
    sys_id.max_length = Some(32);
    put(&mut t.fields, "sys_id", sys_id);
    let mut number = field(FieldType::String, true, false);
    number.max_length = Some(40);
    put(&mut t.fields, "number", number);
    put(&mut t.fields, "state", field(FieldType::Integer, false, false));
    put(&mut t.fields, "priority", field(FieldType::Integer, false, false));
    put(&mut t.fields, "short_description", field(FieldType::String, false, false));
    put(&mut t.fields, "description", field(FieldType::String, false, false));
    put(&mut t.fields, "active", field(FieldType::Boolean, false, false));
    put(&mut t.fields, "assigned_to", reference("sys_user"));
    put(&mut t.fields, "assignment_group", reference("sys_user_group"));
    put(&mut t.fields, "cmdb_ci", reference("cmdb_ci"));
    put(&mut t.fields, "parent", reference("task"));
    put(&mut t.fields, "work_notes", field(FieldType::JournalInput, false, true));
    put(&mut t.fields, "comments", field(FieldType::JournalInput, false, true));
    put(&mut t.fields, "approval_history", field(FieldType::Journal, true, false));
    put(&mut t.fields, "sys_created_on", field(FieldType::DateTime, true, false));
    put(&mut t.fields, "sys_updated_on", field(FieldType::DateTime, true, false));
    put(&mut t.fields, "sys_created_by", field(FieldType::String, true, false));
    put(&mut t.relationships, "approvals", one_to_many("sysapproval_approver", "sysapproval", None));
    put(&mut t.relationships, "task_sla", one_to_many("task_sla", "task", None));
    t
}

fn ritm_table() -> (r: TableDef)
    ensures
        r@ == spec_ritm_table(),
{
    let mut t = table("Requested Item", Some("task"));
    put(&mut t.fields, "request", reference("sc_request"));
    put(&mut t.fields, "requested_for", reference("sys_user"));
    put(&mut t.relationships, "sc_task", one_to_many("sc_task", "request_item", None));
    t
}

fn sc_task_table() -> (r: TableDef)
    ensures
        r@ == spec_sc_task_table(),
{
    let mut t = table("Catalog Task", Some("task"));
    put(&mut t.fields, "request_item", reference("sc_req_item"));
    t
}

fn approval_table() -> (r: TableDef)
    ensures
        r@ == spec_approval_table(),
{
    let mut t = table("Approval", None);
    put(&mut t.fields, "approver", reference("sys_user"));
    put(&mut t.fields, "sysapproval", reference("task"));
    put(&mut t.fields, "document_id", field(FieldType::DocumentId, false, false));
    put(&mut t.fields, "source_table", field(FieldType::String, false, false));
    put(&mut t.fields, "state", field(FieldType::String, false, false));
    put(&mut t.fields, "comments", field(FieldType::JournalInput, false, true));
    t
}

fn user_table() -> (r: TableDef)
    ensures
        r@ == spec_user_table(),
{
    let mut t = table("User", None);
    put(&mut t.fields, "name", field(FieldType::String, false, false));
    put(&mut t.fields, "email", field(FieldType::Email, false, false));
    put(&mut t.fields, "manager", reference("sys_user"));
    t
}

fn group_table() -> (r: TableDef)
    ensures
        r@ == spec_group_table(),
{
    let mut t = table("Group", None);
    put(&mut t.fields, "name", field(FieldType::String, false, false));
    t
}

fn journal_table() -> (r: TableDef)
    ensures
        r@ == spec_journal_table(),
{
    let mut t = table("Journal Entry", None);
    put(&mut t.fields, "element_id", field(FieldType::String, false, false));
    put(&mut t.fields, "element", field(FieldType::String, false, false));
    put(&mut t.fields, "name", field(FieldType::String, false, false));
    put(&mut t.fields, "value", field(FieldType::String, false, false));
    t
}

fn task_sla_table() -> (r: TableDef)
    ensures
        r@ == spec_task_sla_table(),
{
    let mut t = table("Task SLA", None);
    put(&mut t.fields, "task", reference("task"));
    put(&mut t.fields, "sla", reference("contract_sla"));
    put(&mut t.fields, "stage", field(FieldType::String, false, false));
    put(&mut t.fields, "active", field(FieldType::Boolean, false, false));
    put(&mut t.fields, "has_breached", field(FieldType::Boolean, false, false));
    put(&mut t.fields, "start_time", field(FieldType::DateTime, false, false));
    put(&mut t.fields, "end_time", field(FieldType::DateTime, false, false));
    put(&mut t.fields, "planned_end_time", field(FieldType::DateTime, false, false));
    put(&mut t.fields, "original_breach_time", field(FieldType::DateTime, false, false));
    put(&mut t.fields, "percentage", field(FieldType::Decimal, false, false));
    put(&mut t.fields, "time_left", field(FieldType::String, false, false));
    put(&mut t.fields, "business_percentage", field(FieldType::Decimal, false, false));
    put(&mut t.fields, "business_time_left", field(FieldType::String, false, false));
    put(&mut t.fields, "business_duration", field(FieldType::String, false, false));
    put(&mut t.fields, "duration", field(FieldType::String, false, false));
    put(&mut t.fields, "schedule", reference("cmn_schedule"));
    t
}

fn contract_sla_table() -> (r: TableDef)
    ensures
        r@ == spec_contract_sla_table(),
{
    let mut t = table("SLA Definition", None);
    put(&mut t.fields, "name", field(FieldType::String, false, false));
    put(&mut t.fields, "schedule", reference("cmn_schedule"));
    put(&mut t.fields, "duration", field(FieldType::String, false, false));
    t
}

fn incident_table() -> (r: TableDef)
    ensures
        r@ == spec_incident_table(),
{
    let mut t = table("Incident", Some("task"));
    put(&mut t.fields, "caller_id", reference("sys_user"));
    put(&mut t.fields, "parent_incident", reference("incident"));
    put(&mut t.relationships, "child_incidents", one_to_many("incident", "parent_incident", None));
    t
}

fn change_table() -> (r: TableDef)
    ensures
        r@ == spec_change_table(),
{
    let mut t = table("Change Request", Some("task"));
    put(&mut t.fields, "risk", field(FieldType::Integer, false, false));
    put(&mut t.fields, "type", field(FieldType::String, false, false));
    put(&mut t.fields, "change_plan", field(FieldType::String, false, false));
    put(&mut t.fields, "backout_plan", field(FieldType::String, false, false));
    put(&mut t.fields, "start_date", field(FieldType::DateTime, false, false));
    put(&mut t.fields, "end_date", field(FieldType::DateTime, false, false));
    put(
        &mut t.relationships,
        "work_notes",
        one_to_many("sys_journal_field", "element_id", Some("name=change_request")),
    );
    put(&mut t.relationships, "change_task", one_to_many("change_task", "change_request", None));
    t
}

fn change_task_table() -> (r: TableDef)
    ensures
        r@ == spec_change_task_table(),
{
    let mut t = table("Change Task", Some("task"));
    put(&mut t.fields, "change_request", reference("change_request"));
    put(&mut t.fields, "change_task_type", field(FieldType::String, false, false));
    t
}

/// The bundled schema definition of a release: every table of
/// `spec_bundled_tables`, with its label, parent, fields and relationships.
///
/// The releases `xanadu`, `yokohama` and `washington` are bundled; any other
/// name is a schema error.
pub fn load_bundled_definition(release: &str) -> (r: Result<SchemaDefinition, Error>)
    ensures
        r.is_ok() <==> spec_known_release(release@),
        match r {
            Ok(d) => d.release@ == release@ && d.tables.deep() == spec_bundled_tables(),
            Err(e) => e matches Error::Schema(_),
        },
{
    if !(str_eq(release, "xanadu") || str_eq(release, "yokohama") || str_eq(release, "washington")) {
        let mut m = concat("unknown release '", release);
        crate::text::push_str(&mut m, "'. Available: xanadu, yokohama, washington");
        return Err(Error::Schema(m));
    }
    let mut tables: StrMap<TableDef> = StrMap::new();
    assert(tables.deep() =~= Map::<Seq<char>, TableView>::empty());
    put(&mut tables, "sc_req_item", ritm_table());
    put(&mut tables, "sc_request", table("Request", Some("task")));
    put(&mut tables, "sc_task", sc_task_table());
    put(&mut tables, "sysapproval_approver", approval_table());
    put(&mut tables, "sys_user", user_table());
    put(&mut tables, "sys_user_group", group_table());
    put(&mut tables, "sys_journal_field", journal_table());
    put(&mut tables, "task_sla", task_sla_table());
    put(&mut tables, "contract_sla", contract_sla_table());
    put(&mut tables, "problem", table("Problem", Some("task")));
    put(&mut tables, "change_task", change_task_table());
    put(&mut tables, "incident", incident_table());
    put(&mut tables, "change_request", change_table());
    put(&mut tables, "task", task_table());
    Ok(SchemaDefinition { release: owned(release), tables })
}

}
