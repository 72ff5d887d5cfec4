use servicenow_rs::schema::relationships::{
    child_relation_for_table, parent_reference_field, reference_default_table, reference_fields_for_table,
};

#[test]
fn test_reference_fields_for_incident() {
    let fields = reference_fields_for_table("incident");
    assert!(fields.contains(&"assigned_to"));
    assert!(fields.contains(&"assignment_group"));
}

#[test]
fn test_reference_fields_for_knowledge() {
    let fields = reference_fields_for_table("kb_knowledge");
    assert!(fields.contains(&"author"));
    assert!(fields.contains(&"knowledge_base"));
    assert!(!fields.contains(&"assigned_to"));
}

#[test]
fn test_default_table_for_assigned_to() {
    assert_eq!(reference_default_table("assigned_to"), Some("sys_user"));
}

#[test]
fn test_default_table_unknown() {
    assert_eq!(reference_default_table("unknown_field"), None);
}

#[test]
fn test_parent_reference_field() {
    assert_eq!(parent_reference_field("change_task"), Some(("change_request", "change_request")));
    assert!(parent_reference_field("incident").is_none());
}

#[test]
fn test_child_relation() {
    assert_eq!(child_relation_for_table("change_request"), Some(("change_task", "change_request")));
    assert!(child_relation_for_table("incident").is_none());
}

#[test]
fn approval_reference_fields_and_targets() {
    assert_eq!(reference_fields_for_table("sysapproval_approver"), vec!["approver", "sysapproval"]);
    assert_eq!(reference_default_table("sysapproval"), Some("task"));
    assert_eq!(reference_default_table("assignment_group"), Some("sys_user_group"));
    assert_eq!(parent_reference_field("sc_task"), Some(("request_item", "sc_req_item")));
    assert_eq!(child_relation_for_table("request_item"), Some(("sc_task", "request_item")));
    assert_eq!(reference_fields_for_table("incident").len(), 8);
}
