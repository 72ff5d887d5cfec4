use servicenow_rs::api::task_sla::{order_task_slas, task_sla_chunk_query, task_slas_query};
use servicenow_rs::model::json::JsonValue;
use servicenow_rs::model::value::DisplayValue;
use servicenow_rs::model::Record;
use servicenow_rs::query::batch::{parent_id_chunks, unique_ids};

const TASK_SLA_FIELDS: &str = "sys_id,task,sla,stage,active,has_breached,start_time,end_time,planned_end_time,original_breach_time,percentage,time_left,business_percentage,business_time_left,business_duration,duration,schedule";

fn pairs(params: &[(String, String)]) -> Vec<(&str, &str)> {
    params.iter().map(|(k, v)| (k.as_str(), v.as_str())).collect()
}

fn row(sys_id: &str, name: &str, active: bool, breached: bool, planned: &str) -> Record {
    let text = format!(
        r#"{{"sys_id": {{"value": "{sys_id}", "display_value": "{sys_id}"}},
            "task": {{"value": "task1", "display_value": "INC0010001"}},
            "sla": {{"value": "sla_{sys_id}", "display_value": "{name}"}},
            "active": {{"value": "{active}", "display_value": "{active}"}},
            "has_breached": {{"value": "{breached}", "display_value": "{breached}"}},
            "planned_end_time": {{"value": "{planned}", "display_value": "{planned}"}}}}"#
    );
    let json = JsonValue::parse_text(&text).expect("valid JSON");
    Record::from_json("task_sla", json, DisplayValue::Both).expect("a record")
}

#[test]
fn single_task_query_projects_fields_in_both_values_without_ordering() {
    let params = task_slas_query("task_sys_id").build_params().unwrap();
    assert_eq!(
        pairs(&params),
        vec![
            ("sysparm_query", "task=task_sys_id"),
            ("sysparm_fields", TASK_SLA_FIELDS),
            ("sysparm_display_value", "all"),
            ("sysparm_exclude_reference_link", "true"),
        ]
    );
}

#[test]
fn chunk_query_reads_pages_of_a_hundred_without_the_count() {
    let pager = task_sla_chunk_query("t1,t2").paginate().unwrap();
    let (path, params) = pager.page_request().unwrap();
    assert_eq!(path, "/api/now/table/task_sla");
    assert_eq!(
        pairs(&params),
        vec![
            ("sysparm_query", "taskINt1,t2"),
            ("sysparm_fields", TASK_SLA_FIELDS),
            ("sysparm_display_value", "all"),
            ("sysparm_exclude_reference_link", "true"),
            ("sysparm_no_count", "true"),
            ("sysparm_limit", "100"),
            ("sysparm_offset", "0"),
        ]
    );
}

#[test]
fn task_ids_are_deduplicated_and_chunked_by_one_hundred() {
    let ids: Vec<String> = (0..101).map(|n| format!("t{n:03}")).collect();
    let mut refs: Vec<&str> = ids.iter().map(String::as_str).collect();
    refs.push("t000");
    let unique = unique_ids(&refs);
    assert_eq!(unique.len(), 101);
    let chunks = parent_id_chunks(&unique);
    assert_eq!(chunks.len(), 2);
    assert_eq!(chunks[0].split(',').count(), 100);
    assert_eq!(chunks[1], "t100");
    assert_eq!(unique_ids(&["a", "a"]), vec!["a".to_string()]);
}

#[test]
fn rows_are_ordered_active_then_unbreached_then_by_planned_end() {
    let rows = vec![
        row("r0", "Inactive SLA", false, false, "2026-05-06 13:00:00"),
        row("r1", "Breached SLA", true, true, "2026-05-06 12:00:00"),
        row("r2", "Later Active SLA", true, false, "2026-05-06 17:00:00"),
        row("r3", "Next Breach SLA", true, false, "2026-05-06 15:00:00"),
    ];
    let ordered = order_task_slas(rows);
    let names: Vec<&str> = ordered.iter().map(|r| r.get_display("sla").unwrap()).collect();
    assert_eq!(names, vec!["Next Breach SLA", "Later Active SLA", "Breached SLA", "Inactive SLA"]);
}

#[test]
fn rows_without_a_planned_end_come_last_and_ties_keep_their_order() {
    let rows = vec![
        row("a", "No End", true, false, ""),
        row("b", "Same One", true, false, "2026-05-06 15:00:00"),
        row("c", "Same Two", true, false, "2026-05-06 15:00:00"),
    ];
    let ordered = order_task_slas(rows);
    let ids: Vec<&str> = ordered.iter().map(|r| r.sys_id.as_str()).collect();
    assert_eq!(ids, vec!["b", "c", "a"]);
}
