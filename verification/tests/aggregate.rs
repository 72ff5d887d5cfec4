use servicenow_rs::api::aggregate::{parse_aggregate_result, AggregateApi};
use servicenow_rs::error::Error;
use servicenow_rs::model::json::JsonValue;
use servicenow_rs::query::filter::{Operator, Order};

fn json(text: &str) -> JsonValue {
    JsonValue::parse_text(text).expect("valid JSON")
}

#[test]
fn test_parse_non_grouped() {
    let result = parse_aggregate_result(&json(r#"{"stats": {"count": "145"}}"#)).unwrap();
    assert!(!result.is_grouped());
    assert_eq!(result.count(), 145);
}

#[test]
fn test_parse_grouped() {
    let result = parse_aggregate_result(&json(
        r#"[
            {"stats": {"count": "100"}, "groupby_fields": [{"field": "state", "value": "1"}]},
            {"stats": {"count": "200"}, "groupby_fields": [{"field": "state", "value": "2"}]}
        ]"#,
    ))
    .unwrap();
    assert!(result.is_grouped());
    assert_eq!(result.group_count(), 2);
    assert_eq!(result.groups()[0].count(), 100);
    assert_eq!(result.groups()[0].field_value("state"), "1");
    assert_eq!(result.groups()[1].count(), 200);
    assert_eq!(result.groups()[1].field_value("state"), "2");
}

#[test]
fn test_parse_multi_stat() {
    let result = parse_aggregate_result(&json(
        r#"{"stats": {"count": "50", "avg.priority": "2.5", "sum.reassignment_count": "120"}}"#,
    ))
    .unwrap();
    assert_eq!(result.count(), 50);
    assert_eq!(result.stat_value("avg.priority"), Some("2.5"));
    assert_eq!(result.stat_value("sum.reassignment_count"), Some("120"));
}

#[test]
fn min_max_and_missing_values() {
    let result = parse_aggregate_result(&json(
        r#"{"stats": {"min.priority": "1", "max.priority": "5", "count": "many"}}"#,
    ))
    .unwrap();
    assert_eq!(result.min_val("priority"), Some("1"));
    assert_eq!(result.max_val("priority"), Some("5"));
    assert_eq!(result.count(), 0);
    assert_eq!(result.stat_value("avg.priority"), None);
    let grouped = parse_aggregate_result(&json(r#"[{"groupby_fields": []}]"#)).unwrap();
    assert_eq!(grouped.groups()[0].field_value("state"), "");
    assert_eq!(grouped.groups()[0].count(), 0);
}

#[test]
fn unexpected_shape_is_an_api_error() {
    match parse_aggregate_result(&json("42")) {
        Err(Error::Api { status, message, detail }) => {
            assert_eq!(status, 200);
            assert_eq!(message, "unexpected aggregate response format");
            assert!(detail.is_none());
        },
        other => panic!("unexpected: {other:?}"),
    }
}

#[test]
fn aggregate_params_follow_the_builder() {
    let api = AggregateApi::new("incident")
        .count()
        .avg("priority")
        .avg("impact")
        .sum("reassignment_count")
        .min("opened_at")
        .max("closed_at")
        .group_by("state")
        .having_count(">10")
        .display_value(true)
        .filter("active", Operator::Equals, "true")
        .order_by("state", Order::Asc);
    assert_eq!(api.path(), "/api/now/stats/incident");
    let params = api.build_params().unwrap();
    let expected = vec![
        ("sysparm_query", "active=true^ORDERBYstate"),
        ("sysparm_count", "true"),
        ("sysparm_avg_fields", "priority,impact"),
        ("sysparm_sum_fields", "reassignment_count"),
        ("sysparm_min_fields", "opened_at"),
        ("sysparm_max_fields", "closed_at"),
        ("sysparm_group_by", "state"),
        ("sysparm_having", ">10"),
        ("sysparm_display_value", "true"),
    ];
    let got: Vec<(&str, &str)> = params.iter().map(|(k, v)| (k.as_str(), v.as_str())).collect();
    assert_eq!(got, expected);
}

#[test]
fn empty_aggregate_has_no_params_and_bad_fields_fail() {
    assert!(AggregateApi::new("incident").build_params().unwrap().is_empty());
    assert!(matches!(
        AggregateApi::new("incident").equals("bad^field", "1").build_params(),
        Err(Error::Query(_))
    ));
}
