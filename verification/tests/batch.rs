use servicenow_rs::model::json::JsonValue;
use servicenow_rs::model::record::Record;
use servicenow_rs::model::value::DisplayValue;
use servicenow_rs::query::batch::{
    attach_related, group_by_parent, parent_id_chunks, records_from_result, relationship_chunk_request,
    unique_parent_sys_ids, RELATED_QUERY_CHUNK_SIZE,
};
use servicenow_rs::schema::definition::{RelationshipDef, RelationshipType};

fn json(text: &str) -> JsonValue {
    JsonValue::parse_text(text).expect("valid JSON")
}

fn task(sys_id: &str, parent: &str) -> Record {
    Record::from_json(
        "change_task",
        json(&format!(r#"{{"sys_id": "{sys_id}", "change_request": "{parent}"}}"#)),
        DisplayValue::Raw,
    )
    .unwrap()
}

#[test]
fn unique_parent_sys_ids_dedupes_in_request_order() {
    let parents = vec![
        Record::new("task", "one"),
        Record::new("task", "two"),
        Record::new("task", "one"),
        Record::new("task", "three"),
    ];
    assert_eq!(
        unique_parent_sys_ids(&parents),
        vec!["one".to_string(), "two".to_string(), "three".to_string()]
    );
}

#[test]
fn parent_id_chunks_caps_each_in_query_at_100_ids() {
    let parent_sys_ids = (0..205).map(|i| format!("id{i:03}")).collect::<Vec<_>>();
    let chunks = parent_id_chunks(&parent_sys_ids);
    assert_eq!(chunks.len(), 3);
    assert_eq!(chunks[0].split(',').count(), RELATED_QUERY_CHUNK_SIZE);
    assert_eq!(chunks[1].split(',').count(), RELATED_QUERY_CHUNK_SIZE);
    assert_eq!(chunks[2].split(',').count(), 5);
    assert!(chunks[0].starts_with("id000,id001"));
    assert!(chunks[2].ends_with("id204"));
}

#[test]
fn no_ids_no_chunks() {
    assert!(parent_id_chunks(&[]).is_empty());
    assert_eq!(parent_id_chunks(&["a".to_string()]), vec!["a".to_string()]);
}

#[test]
fn chunk_request_names_the_foreign_key_and_filter() {
    let rel = RelationshipDef {
        table: "sysapproval_approver".to_string(),
        foreign_key: "sysapproval".to_string(),
        relationship_type: RelationshipType::OneToMany,
        filter: Some("state=requested".to_string()),
    };
    let (path, params) = relationship_chunk_request("a,b", &rel, DisplayValue::Display);
    assert_eq!(path, "/api/now/table/sysapproval_approver");
    let got: Vec<(&str, &str)> = params.iter().map(|(k, v)| (k.as_str(), v.as_str())).collect();
    assert_eq!(
        got,
        vec![
            ("sysparm_query", "sysapprovalINa,b^state=requested"),
            ("sysparm_display_value", "all"),
            ("sysparm_exclude_reference_link", "true"),
            ("sysparm_limit", "10000"),
        ]
    );
    let plain = RelationshipDef { filter: None, ..rel };
    let (_, params) = relationship_chunk_request("x", &plain, DisplayValue::Raw);
    assert_eq!(params[0].1, "sysapprovalINx");
    assert_eq!(params[1].1, "false");
}

#[test]
fn records_of_a_result_skip_non_objects() {
    let records = records_from_result("incident", json(r#"[{"sys_id": "a"}, 3, {"sys_id": "b"}]"#), DisplayValue::Raw);
    assert_eq!(records.len(), 2);
    assert_eq!(records[1].sys_id, "b");
    assert!(records_from_result("incident", json(r#"{"sys_id": "a"}"#), DisplayValue::Raw).is_empty());
}

#[test]
fn related_records_go_to_the_first_parent_that_they_name() {
    let parents = vec![Record::new("change_request", "p1"), Record::new("change_request", "p2"), Record::new("change_request", "p1")];
    let related = vec![task("t1", "p1"), task("t2", "p2"), task("t3", "p1"), task("t4", "nobody")];
    let parents = attach_related(parents, "change_task", "change_request", related);
    assert_eq!(parents.len(), 3);
    let first: Vec<&str> = parents[0].related("change_task").iter().map(|r| r.sys_id.as_str()).collect();
    assert_eq!(first, vec!["t1", "t3"]);
    assert_eq!(parents[1].related("change_task").len(), 1);
    assert!(!parents[2].has_related());
}

#[test]
fn grouping_keeps_request_order() {
    let groups = group_by_parent(vec![task("t1", "p1"), task("t2", "p2"), task("t3", "p1")], "change_request");
    assert_eq!(groups.len(), 2);
    let p1: Vec<&str> = groups.get("p1").unwrap().iter().map(|r| r.sys_id.as_str()).collect();
    assert_eq!(p1, vec!["t1", "t3"]);
    assert!(groups.get("nobody").is_none());
}
