use servicenow_rs::api::approval::{ApprovalAction, ApprovalBuilder, ApprovalStep};
use servicenow_rs::error::Error;
use servicenow_rs::model::json::JsonValue;

fn json(text: &str) -> JsonValue {
    JsonValue::parse_text(text).expect("valid JSON")
}

#[test]
fn approval_states() {
    assert_eq!(ApprovalAction::Approve.as_state(), "approved");
    assert_eq!(ApprovalAction::Reject.as_state(), "rejected");
}

#[test]
fn lookup_by_document_or_sysapproval_in_one_query() {
    let builder = ApprovalBuilder::new("change_request", "chg1", "user1", ApprovalAction::Approve);
    match builder.first_step() {
        ApprovalStep::Lookup { path, params } => {
            assert_eq!(path, "/api/now/table/sysapproval_approver");
            assert_eq!(
                params[0].1,
                "(document_id=chg1^approver=user1^state=requested)^OR(sysapproval=chg1^approver=user1^state=requested)"
            );
            assert_eq!(params[1].1, "sys_id,document_id,sysapproval,approver,state,source_table,comments");
            assert_eq!(params[2], ("sysparm_display_value".to_string(), "false".to_string()));
            assert_eq!(params[3], ("sysparm_limit".to_string(), "1".to_string()));
        },
        other => panic!("unexpected: {other:?}"),
    }
    match builder.after_lookup(&json("[]")) {
        ApprovalStep::Failed(Error::Api { status, message, detail }) => {
            assert_eq!(status, 404);
            assert_eq!(message, "no pending approval found for change_request chg1 with approver user1");
            assert_eq!(detail.as_deref(), Some("verify the record has a pending approval assigned to this user"));
        },
        other => panic!("unexpected: {other:?}"),
    }
}

#[test]
fn approval_without_comment_sends_only_the_state() {
    let builder = ApprovalBuilder::new("change_request", "chg1", "user1", ApprovalAction::Approve);
    match builder.after_lookup(&json(r#"[{"sys_id": "appr1"}]"#)) {
        ApprovalStep::Update { body: JsonValue::Object(members), .. } => {
            assert_eq!(members.len(), 1);
            assert_eq!(members[0].0, "state");
            assert!(matches!(&members[0].1, JsonValue::String(s) if s == "approved"));
        },
        other => panic!("unexpected: {other:?}"),
    }
}

#[test]
fn found_approval_is_updated_with_state_and_comment() {
    let builder = ApprovalBuilder::new("change_request", "chg1", "user1", ApprovalAction::Reject).comment("Missing test plan");
    match builder.after_lookup(&json(r#"[{"sys_id": "appr9", "state": "requested"}]"#)) {
        ApprovalStep::Update { path, params, body } => {
            assert_eq!(path, "/api/now/table/sysapproval_approver/appr9");
            assert_eq!(params[0], ("sysparm_display_value".to_string(), "true".to_string()));
            assert_eq!(params[1].1, "sys_id,sysapproval,approver,state,source_table,comments,sys_updated_on");
            assert!(matches!(body.get("state"), Some(JsonValue::String(s)) if s == "rejected"));
            assert!(matches!(body.get("comments"), Some(JsonValue::String(s)) if s == "Missing test plan"));
        },
        other => panic!("unexpected: {other:?}"),
    }
    let record = builder.finish(json(r#"{"sys_id": "appr9", "state": {"display_value": "Rejected", "value": "rejected"}}"#)).unwrap();
    assert_eq!(record.table, "sysapproval_approver");
    assert_eq!(record.get_str("state"), Some("Rejected"));
    assert!(matches!(builder.finish(json("[]")), Err(Error::Api { status: 200, .. })));
}
