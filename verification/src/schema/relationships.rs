//! Structural knowledge of common ServiceNow tables: which fields are
//! references, where they point, and how parent and child tables link.

use vstd::prelude::*;
use crate::text::str_eq;

verus! {

/// The characters of a list of static names.
pub open spec fn names_view(v: Seq<&'static str>) -> Seq<Seq<char>> {
    v.map_values(|s: &'static str| s@)
}

/// Reference fields of a table: a list for knowledge articles, one for
/// approvals, and a common task-oriented list for every other table.
pub open spec fn spec_reference_fields(table: Seq<char>) -> Seq<Seq<char>> {
    if table == "kb_knowledge"@ {
        seq!["knowledge_base"@, "category"@, "author"@]
    } else if table == "sysapproval_approver"@ {
        seq!["approver"@, "sysapproval"@]
    } else {
        seq![
            "assigned_to"@,
            "assignment_group"@,
            "caller_id"@,
            "cmdb_ci"@,
            "requested_for"@,
            "request_item"@,
            "change_request"@,
            "story"@,
        ]
    }
}

/// The table a reference field usually points to.
pub open spec fn spec_reference_default_table(field: Seq<char>) -> Option<Seq<char>> {
    if field == "assigned_to"@ || field == "caller_id"@ || field == "requested_for"@ {
        Some("sys_user"@)
    } else if field == "assignment_group"@ {
        Some("sys_user_group"@)
    } else if field == "cmdb_ci"@ {
        Some("cmdb_ci"@)
    } else if field == "request_item"@ {
        Some("sc_req_item"@)
    } else if field == "change_request"@ {
        Some("change_request"@)
    } else if field == "story"@ {
        Some("rm_story"@)
    } else if field == "knowledge_base"@ {
        Some("kb_knowledge_base"@)
    } else if field == "category"@ {
        Some("kb_category"@)
    } else if field == "author"@ || field == "approver"@ {
        Some("sys_user"@)
    } else if field == "sysapproval"@ {
        Some("task"@)
    } else {
        None
    }
}

/// For a child table: the field that references its parent, and the parent table.
pub open spec fn spec_parent_reference_field(table: Seq<char>) -> Option<(Seq<char>, Seq<char>)> {
    if table == "change_task"@ {
        Some(("change_request"@, "change_request"@))
    } else if table == "sc_task"@ {
        Some(("request_item"@, "sc_req_item"@))
    } else if table == "rm_scrum_task"@ {
        Some(("story"@, "rm_story"@))
    } else if table == "sysapproval_approver"@ {
        Some(("sysapproval"@, "task"@))
    } else {
        None
    }
}

/// For a parent table: its child table and the child's field that references it.
pub open spec fn spec_child_relation(table: Seq<char>) -> Option<(Seq<char>, Seq<char>)> {
    if table == "change_request"@ {
        Some(("change_task"@, "change_request"@))
    } else if table == "sc_req_item"@ || table == "request_item"@ {
        Some(("sc_task"@, "request_item"@))
    } else if table == "rm_story"@ {
        Some(("rm_scrum_task"@, "story"@))
    } else {
        None
    }
}

/// The characters of an optional pair of static names.
pub open spec fn opt_pair_view(o: Option<(&'static str, &'static str)>) -> Option<(Seq<char>, Seq<char>)> {
    match o {
        Some((a, b)) => Some((a@, b@)),
        None => None,
    }
}

/// Reference fields to extract for a table.
pub fn reference_fields_for_table(table_name: &str) -> (r: Vec<&'static str>)
    ensures
        names_view(r@) == spec_reference_fields(table_name@),
{
    let r = if str_eq(table_name, "kb_knowledge") {
        vec!["knowledge_base", "category", "author"]
    } else if str_eq(table_name, "sysapproval_approver") {
        vec!["approver", "sysapproval"]
    } else {
        vec![
            "assigned_to",
            "assignment_group",
            "caller_id",
            "cmdb_ci",
            "requested_for",
            "request_item",
            "change_request",
            "story",
        ]
    };
    assert(names_view(r@) =~= spec_reference_fields(table_name@));
    r
}

/// Default target table for a reference field name.
pub fn reference_default_table(field_name: &str) -> (r: Option<&'static str>)
    ensures
        match r {
            Some(t) => spec_reference_default_table(field_name@) == Some(t@),
            None => spec_reference_default_table(field_name@).is_none(),
        },
{
    if str_eq(field_name, "assigned_to") || str_eq(field_name, "caller_id") || str_eq(
        field_name,
        "requested_for",
    ) {
        Some("sys_user")
    } else if str_eq(field_name, "assignment_group") {
        Some("sys_user_group")
    } else if str_eq(field_name, "cmdb_ci") {
        Some("cmdb_ci")
    } else if str_eq(field_name, "request_item") {
        Some("sc_req_item")
    } else if str_eq(field_name, "change_request") {
        Some("change_request")
    } else if str_eq(field_name, "story") {
        Some("rm_story")
    } else if str_eq(field_name, "knowledge_base") {
        Some("kb_knowledge_base")
    } else if str_eq(field_name, "category") {
        Some("kb_category")
    } else if str_eq(field_name, "author") || str_eq(field_name, "approver") {
        Some("sys_user")
    } else if str_eq(field_name, "sysapproval") {
        Some("task")
    } else {
        None
    }
}

/// For a child table, `(parent_field_name, parent_table)`.
pub fn parent_reference_field(table_name: &str) -> (r: Option<(&'static str, &'static str)>)
    ensures
        opt_pair_view(r) == spec_parent_reference_field(table_name@),
{
    if str_eq(table_name, "change_task") {
        Some(("change_request", "change_request"))
    } else if str_eq(table_name, "sc_task") {
        Some(("request_item", "sc_req_item"))
    } else if str_eq(table_name, "rm_scrum_task") {
        Some(("story", "rm_story"))
    } else if str_eq(table_name, "sysapproval_approver") {
        Some(("sysapproval", "task"))
    } else {
        None
    }
}

/// For a parent table, `(child_table, foreign_key_field)`.
pub fn child_relation_for_table(table_name: &str) -> (r: Option<(&'static str, &'static str)>)
    ensures
        opt_pair_view(r) == spec_child_relation(table_name@),
{
    if str_eq(table_name, "change_request") {
        Some(("change_task", "change_request"))
    } else if str_eq(table_name, "sc_req_item") || str_eq(table_name, "request_item") {
        Some(("sc_task", "request_item"))
    } else if str_eq(table_name, "rm_story") {
        Some(("rm_scrum_task", "story"))
    } else {
        None
    }
}

} // verus!
