use servicenow_rs::model::json::JsonValue;
use servicenow_rs::model::record::Record;
use servicenow_rs::model::value::{parse_field_value, DisplayValue, FieldValue};

fn json(text: &str) -> JsonValue {
    JsonValue::parse_text(text).expect("valid JSON")
}

#[test]
fn test_parse_simple_value() {
    let fv = parse_field_value(json(r#""CHG0012345""#), DisplayValue::Raw);
    assert_eq!(fv.raw_str(), Some("CHG0012345"));
    assert!(fv.display_value.is_none());
}

#[test]
fn test_parse_expanded_value() {
    let fv = parse_field_value(
        json(r#"{"display_value": "New", "value": "1", "link": "https://instance.service-now.com/api/now/table/sys_choice/123"}"#),
        DisplayValue::Both,
    );
    assert_eq!(fv.raw_str(), Some("1"));
    assert_eq!(fv.display_str(), Some("New"));
    assert!(fv.link.is_some());
}

#[test]
fn test_as_str_prefers_display() {
    let fv = FieldValue {
        value: Some(JsonValue::String("1".to_string())),
        display_value: Some("New".to_string()),
        link: None,
    };
    assert_eq!(fv.as_str(), Some("New"));
}

#[test]
fn test_display_value_param() {
    assert_eq!(DisplayValue::Raw.as_param(), "false");
    assert_eq!(DisplayValue::Display.as_param(), "true");
    assert_eq!(DisplayValue::Both.as_param(), "all");
}

#[test]
fn display_mode_keeps_plain_strings_as_display_text() {
    let fv = parse_field_value(json(r#""In Progress""#), DisplayValue::Display);
    assert_eq!(fv.display_str(), Some("In Progress"));
    assert_eq!(fv.raw_str(), None);
    assert_eq!(fv.as_str(), Some("In Progress"));
    let other = parse_field_value(json("42"), DisplayValue::Display);
    assert_eq!(other.display_str(), Some(""));
}

#[test]
fn raw_numbers_are_not_strings() {
    let fv = parse_field_value(json("42"), DisplayValue::Raw);
    assert_eq!(fv.raw_str(), None);
    assert!(matches!(fv.value, Some(JsonValue::Number(ref n)) if n == "42"));
}

#[test]
fn default_display_value_is_raw() {
    assert_eq!(DisplayValue::default(), DisplayValue::Raw);
}

#[test]
fn test_from_json_simple() {
    let record = Record::from_json(
        "change_request",
        json(r#"{"sys_id": "abc123", "number": "CHG0012345", "state": "1"}"#),
        DisplayValue::Raw,
    )
    .unwrap();
    assert_eq!(record.sys_id, "abc123");
    assert_eq!(record.table, "change_request");
    assert_eq!(record.get_str("number"), Some("CHG0012345"));
}

#[test]
fn test_from_json_display_value_all() {
    let record = Record::from_json(
        "change_request",
        json(r#"{"sys_id": {"display_value": "abc123", "value": "abc123"}, "state": {"display_value": "New", "value": "1"}}"#),
        DisplayValue::Both,
    )
    .unwrap();
    assert_eq!(record.sys_id, "abc123");
    assert_eq!(record.get_display("state"), Some("New"));
    assert_eq!(record.get_raw("state"), Some("1"));
}

#[test]
fn test_related_records() {
    let mut parent = Record::new("change_request", "parent_id");
    let child = Record::new("change_task", "child_id");
    parent.set_related("change_task", vec![child]);

    assert_eq!(parent.related("change_task").len(), 1);
    assert_eq!(parent.related("nonexistent").len(), 0);
    assert!(parent.has_related());
}

#[test]
fn non_object_is_not_a_record() {
    assert!(Record::from_json("incident", json("[1, 2]"), DisplayValue::Raw).is_none());
    let record = Record::from_json("incident", json(r#"{"number": "INC1"}"#), DisplayValue::Raw).unwrap();
    assert_eq!(record.sys_id, "");
}

#[test]
fn dot_walked_fields_are_found_by_prefix() {
    let record = Record::from_json(
        "incident",
        json(r#"{"sys_id": "a", "assigned_to.name": "Ann", "assigned_to.email": "ann@x", "assigned_to": "u1", "assigned_tox": "no"}"#),
        DisplayValue::Raw,
    )
    .unwrap();
    let mut names: Vec<&str> = record.dot_walked_fields("assigned_to").into_iter().map(|(k, _)| k).collect();
    names.sort();
    assert_eq!(names, vec!["assigned_to.email", "assigned_to.name"]);
    assert!(record.has_field("assigned_to.name"));
    assert_eq!(record.field_names().len(), 5);
}

#[test]
fn set_replaces_a_field() {
    let mut record = Record::new("incident", "a");
    record.set("state", FieldValue::from_display("New".to_string()));
    record.set("state", FieldValue::from_raw(JsonValue::String("2".to_string())));
    assert_eq!(record.get_raw("state"), Some("2"));
    assert_eq!(record.get_display("state"), None);
    assert_eq!(record.relationship_names().len(), 0);
}
