use servicenow_rs::model::json::JsonValue;
use servicenow_rs::model::record::Record;
use servicenow_rs::model::sla::{
    bool_field, compare_planned_end_time, display_string_field, is_next_breach_candidate, non_empty_str, non_empty_string, parse_bool_str,
    parse_json_bool, raw_string_field, stage_field, string_field, TaskSlaStage,
};
use servicenow_rs::model::value::DisplayValue;
use std::cmp::Ordering;

fn record(text: &str) -> Record {
    Record::from_json("task_sla", JsonValue::parse_text(text).unwrap(), DisplayValue::Both).unwrap()
}

#[test]
fn stages_from_raw_and_display_values() {
    assert_eq!(TaskSlaStage::from_service_now("in_progress"), Some(TaskSlaStage::InProgress));
    assert_eq!(TaskSlaStage::from_service_now(" In Progress "), Some(TaskSlaStage::InProgress));
    assert_eq!(TaskSlaStage::from_service_now("in-progress"), Some(TaskSlaStage::InProgress));
    assert_eq!(TaskSlaStage::from_service_now("PAUSE"), Some(TaskSlaStage::Paused));
    assert_eq!(TaskSlaStage::from_service_now("Complete"), Some(TaskSlaStage::Completed));
    assert_eq!(TaskSlaStage::from_service_now("canceled"), Some(TaskSlaStage::Cancelled));
    assert_eq!(
        TaskSlaStage::from_service_now(" Customer Hold "),
        Some(TaskSlaStage::Other("Customer Hold".to_string()))
    );
    assert_eq!(TaskSlaStage::from_service_now("   "), None);
    assert!(TaskSlaStage::Completed.is_terminal());
    assert!(TaskSlaStage::Cancelled.is_terminal());
    assert!(!TaskSlaStage::Paused.is_terminal());
}

#[test]
fn flags_as_text_and_json() {
    for t in ["true", " YES ", "1", "y"] {
        assert_eq!(parse_bool_str(t), Some(true));
    }
    for f in ["false", "No", "0", "N"] {
        assert_eq!(parse_bool_str(f), Some(false));
    }
    assert_eq!(parse_bool_str("not a bool"), None);
    assert_eq!(parse_json_bool(&JsonValue::Bool(false)), Some(false));
    assert_eq!(parse_json_bool(&JsonValue::Number("1".to_string())), Some(true));
    assert_eq!(parse_json_bool(&JsonValue::Number("2".to_string())), None);
    assert_eq!(parse_json_bool(&JsonValue::Null), None);
}

#[test]
fn blank_text_reads_as_none() {
    assert_eq!(non_empty_str(Some("  x ")), Some("x"));
    assert_eq!(non_empty_str(Some("   ")), None);
    assert_eq!(non_empty_str(None), None);
    assert_eq!(non_empty_string(" abc "), Some("abc".to_string()));
}

#[test]
fn task_sla_fields_from_a_both_mode_record() {
    let rec = record(
        r#"{
            "sys_id": { "display_value": "sla-row", "value": "sla-row" },
            "task": { "display_value": "INC0010001", "value": "task-sys-id" },
            "sla": { "display_value": "Priority 1 resolution", "value": "sla-sys-id" },
            "stage": { "display_value": "In Progress", "value": "in_progress" },
            "active": { "display_value": "true", "value": "true" },
            "has_breached": { "display_value": "false", "value": false },
            "start_time": "2026-05-06 10:00:00",
            "planned_end_time": { "display_value": "2026-05-06 11:00:00", "value": "2026-05-06 11:00:00" },
            "schedule": { "display_value": "Weekdays", "value": "schedule-sys-id" }
        }"#,
    );
    assert_eq!(rec.sys_id, "sla-row");
    assert_eq!(raw_string_field(&rec, "task").as_deref(), Some("task-sys-id"));
    assert_eq!(display_string_field(&rec, "sla").as_deref(), Some("Priority 1 resolution"));
    assert_eq!(stage_field(&rec, "stage"), Some(TaskSlaStage::InProgress));
    assert_eq!(bool_field(&rec, "active"), Some(true));
    assert_eq!(bool_field(&rec, "has_breached"), Some(false));
    assert_eq!(string_field(&rec, "start_time").as_deref(), Some("2026-05-06 10:00:00"));
    assert_eq!(raw_string_field(&rec, "schedule").as_deref(), Some("schedule-sys-id"));
    let planned = string_field(&rec, "planned_end_time");
    assert!(is_next_breach_candidate(Some(true), Some(false), &Some(TaskSlaStage::InProgress), planned.as_deref()));
    assert!(!is_next_breach_candidate(Some(true), Some(false), &Some(TaskSlaStage::Completed), planned.as_deref()));
    assert!(!is_next_breach_candidate(None, Some(false), &None, planned.as_deref()));
    assert!(!is_next_breach_candidate(Some(true), Some(false), &None, Some("  ")));
}

#[test]
fn missing_and_unexpected_fields_read_as_none() {
    let rec = record(
        r#"{
            "sys_id": "sla-row",
            "stage": { "display_value": "Customer Hold", "value": "customer_hold" },
            "active": "not a bool",
            "business_percentage": ""
        }"#,
    );
    assert_eq!(stage_field(&rec, "stage"), Some(TaskSlaStage::Other("customer_hold".to_string())));
    assert_eq!(raw_string_field(&rec, "task"), None);
    assert_eq!(display_string_field(&rec, "sla"), None);
    assert_eq!(bool_field(&rec, "active"), None);
    assert_eq!(string_field(&rec, "business_percentage"), None);
}

fn status(active: bool, breached: bool, stage: &str, planned: &str) -> servicenow_rs::model::sla::SlaStatus {
    servicenow_rs::model::sla::SlaStatus {
        active: Some(active),
        has_breached: Some(breached),
        stage: TaskSlaStage::from_service_now(stage),
        planned_end_time: Some(planned.to_string()),
    }
}

#[test]
fn summary_counts_and_selects_next_breach() {
    let rows = vec![
        status(false, false, "in_progress", "2026-05-06 08:00:00"),
        status(true, true, "in_progress", "2026-05-06 09:00:00"),
        status(true, false, "completed", "2026-05-06 07:00:00"),
        status(true, false, "in_progress", "2026-05-06 11:00:00"),
        status(true, false, "paused", "2026-05-06 10:00:00"),
    ];
    let counts = servicenow_rs::model::sla::summarize_slas(&rows);
    assert_eq!(counts.total, 5);
    assert_eq!(counts.active, 4);
    assert_eq!(counts.breached, 1);
    assert_eq!(counts.next_breach, Some(4));
}

#[test]
fn summary_of_equal_times_picks_the_first_and_of_no_candidate_none() {
    let rows = vec![
        status(true, false, "in_progress", " 2026-05-06 10:00:00 "),
        status(true, false, "in_progress", "2026-05-06 10:00:00"),
        status(true, false, "in_progress", "   "),
    ];
    assert_eq!(servicenow_rs::model::sla::summarize_slas(&rows).next_breach, Some(0));
    let none = vec![status(false, false, "in_progress", "2026-05-06 10:00:00")];
    let counts = servicenow_rs::model::sla::summarize_slas(&none);
    assert_eq!(counts.next_breach, None);
    assert_eq!(counts.active, 0);
    assert_eq!(servicenow_rs::model::sla::summarize_slas(&[]).total, 0);
}

#[test]
fn blank_text_includes_unicode_whitespace() {
    assert_eq!(non_empty_str(Some("\u{3000}x\u{a0}")), Some("x"));
    assert_eq!(non_empty_str(Some("\u{2028}\t\u{85}")), None);
}

#[test]
fn planned_end_times_order_with_missing_ones_last() {
    assert_eq!(
        compare_planned_end_time(Some("2024-01-02 10:00:00"), Some("2024-01-03 09:00:00")),
        Ordering::Less
    );
    assert_eq!(
        compare_planned_end_time(Some(" 2024-01-03 09:00:00 "), Some("2024-01-03 09:00:00")),
        Ordering::Equal
    );
    assert_eq!(
        compare_planned_end_time(Some("2024-02-01 00:00:00"), Some("2024-01-31 23:59:59")),
        Ordering::Greater
    );
    assert_eq!(compare_planned_end_time(Some("2024-01-01 00:00:00"), Some("  ")), Ordering::Less);
    assert_eq!(compare_planned_end_time(None, Some("2024-01-01 00:00:00")), Ordering::Greater);
    assert_eq!(compare_planned_end_time(None, Some("")), Ordering::Equal);
}
