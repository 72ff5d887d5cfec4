use servicenow_rs::client::{
    foreign_key_query, group_by_foreign_key, journal_all_query, journal_inline_query, journal_query,
    number_query, state_body, update_query, work_note_body,
};
use servicenow_rs::model::json::JsonValue;
use servicenow_rs::model::record::Record;
use servicenow_rs::model::value::DisplayValue;
use servicenow_rs::query::filter::Order;

fn pairs(params: &[(String, String)]) -> Vec<(&str, &str)> {
    params.iter().map(|(k, v)| (k.as_str(), v.as_str())).collect()
}

#[test]
fn journal_queries() {
    let q = journal_query("incident", "abc", "work_notes");
    assert_eq!(q.table_name(), "sys_journal_field");
    assert_eq!(
        pairs(&q.build_params().unwrap()),
        vec![
            ("sysparm_query", "element_id=abc^element=work_notes^name=incident^ORDERBYDESCsys_created_on"),
            ("sysparm_fields", "sys_created_on,sys_created_by,value,element,element_id"),
            ("sysparm_display_value", "false"),
            ("sysparm_exclude_reference_link", "true"),
        ]
    );
    let all = journal_all_query("incident", "abc");
    assert_eq!(all.build_params().unwrap()[0].1, "element_id=abc^name=incident^ORDERBYDESCsys_created_on");
    let inline = journal_inline_query("incident", "abc", &["work_notes", "comments"]);
    assert_eq!(
        pairs(&inline.build_params().unwrap()),
        vec![
            ("sysparm_query", "sys_id=abc"),
            ("sysparm_fields", "work_notes,comments"),
            ("sysparm_display_value", "true"),
            ("sysparm_exclude_reference_link", "true"),
        ]
    );
}

#[test]
fn number_and_update_queries() {
    let q = number_query("incident", "INC0012345");
    assert_eq!(
        pairs(&q.build_params().unwrap()),
        vec![
            ("sysparm_query", "number=INC0012345"),
            ("sysparm_display_value", "false"),
            ("sysparm_limit", "1"),
            ("sysparm_exclude_reference_link", "true"),
        ]
    );
    let u = update_query("incident");
    assert_eq!(pairs(&u.get_params()), vec![("sysparm_fields", "sys_id,number,state"), ("sysparm_display_value", "all"), ("sysparm_exclude_reference_link", "true")]);
}

#[test]
fn update_bodies() {
    let body = work_note_body("Escalated");
    assert!(matches!(body.get("work_notes"), Some(JsonValue::String(s)) if s == "Escalated"));
    let body = state_body("2", Some("Starting work"));
    assert!(matches!(body.get("state"), Some(JsonValue::String(s)) if s == "2"));
    assert!(matches!(body.get("work_notes"), Some(JsonValue::String(s)) if s == "Starting work"));
    assert!(state_body("2", None).get("work_notes").is_none());
}

#[test]
fn foreign_key_fetches() {
    let q = foreign_key_query("change_task", "change_request", &["p1", "p2"], &["number"], DisplayValue::Both, Some(("number", Order::Asc)));
    assert_eq!(q.build_params().unwrap()[0].1, "change_requestINp1,p2^ORDERBYnumber");
    let rows: Vec<Record> = ["c1:p1", "c2:", "c3:p1", "c4:p9"]
        .iter()
        .map(|s| {
            let (id, parent) = s.split_once(':').unwrap();
            let text = if parent.is_empty() {
                format!(r#"{{"sys_id": "{id}"}}"#)
            } else {
                format!(r#"{{"sys_id": "{id}", "change_request": "{parent}"}}"#)
            };
            Record::from_json("change_task", JsonValue::parse_text(&text).unwrap(), DisplayValue::Raw).unwrap()
        })
        .collect();
    let groups = group_by_foreign_key(&["p1", "p2"], rows, "change_request");
    assert_eq!(groups.len(), 3);
    let p1: Vec<&str> = groups.get("p1").unwrap().iter().map(|r| r.sys_id.as_str()).collect();
    assert_eq!(p1, vec!["c1", "c3"]);
    assert!(groups.get("p2").unwrap().is_empty());
    assert_eq!(groups.get("p9").unwrap().len(), 1);
}
