use servicenow_rs::api::graphql::{after_graphql, select_operation, GraphqlOperation, GraphqlOutcome};
use servicenow_rs::error::Error;
use servicenow_rs::model::json::JsonValue;
use servicenow_rs::transport::response::{PaginationLinks, ServiceNowResponse};
use servicenow_rs::transport::selection::{TransportMode, TransportSelection};

fn json(text: &str) -> JsonValue {
    JsonValue::parse_text(text).expect("valid JSON")
}

fn params(pairs: &[(&str, &str)]) -> Vec<(String, String)> {
    pairs.iter().map(|(k, v)| (k.to_string(), v.to_string())).collect()
}

#[test]
fn parses_table_list_operation() {
    let operation = GraphqlOperation::from_table_list(
        "/api/now/table/change_task",
        &[
            ("sysparm_query".to_string(), "change_request=abc".to_string()),
            ("sysparm_fields".to_string(), "sys_id,number".to_string()),
            ("sysparm_limit".to_string(), "25".to_string()),
        ],
    )
    .expect("operation")
    .expect("supported");

    match operation {
        GraphqlOperation::TableList { table, limit, fields, .. } => {
            assert_eq!(table, "change_task");
            assert_eq!(limit, Some(25));
            assert_eq!(fields, vec!["sys_id".to_string(), "number".to_string()]);
        },
        other => panic!("unexpected operation: {other:?}"),
    }
}

#[test]
fn extracts_table_get_result() {
    let operation = GraphqlOperation::TableGet {
        table: "incident".to_string(),
        sys_id: "abc".to_string(),
        fields: vec!["number".to_string()],
        display_value: "all".to_string(),
        exclude_reference_link: true,
    };
    let result = operation
        .extract_result(json(r#"{ "table": { "record": { "number": "INC001" } } }"#))
        .expect("result");
    assert!(matches!(result.get("number"), Some(JsonValue::String(s)) if s == "INC001"));
}

#[test]
fn missing_parts_of_a_graphql_answer() {
    let get = GraphqlOperation::TableGet {
        table: "incident".to_string(),
        sys_id: "abc".to_string(),
        fields: vec![],
        display_value: "false".to_string(),
        exclude_reference_link: false,
    };
    match get.extract_result(json(r#"{"other": 1}"#)) {
        Err(Error::Api { status, message, detail }) => {
            assert_eq!(status, 200);
            assert_eq!(message, "missing `table` in GraphQL response");
            assert_eq!(detail.as_deref(), Some(r#"{"other":1}"#));
        },
        other => panic!("unexpected: {other:?}"),
    }
    match get.extract_result(json(r#"{"table": {}}"#)) {
        Err(Error::Api { message, detail, .. }) => {
            assert_eq!(message, "missing `record` in GraphQL response");
            assert_eq!(detail.as_deref(), Some(r#"{"table":{}}"#));
        },
        other => panic!("unexpected: {other:?}"),
    }
    let list = GraphqlOperation::from_table_list("/api/now/table/incident", &[]).unwrap().unwrap();
    let records = list.extract_result(json(r#"{"table": {}}"#)).unwrap();
    assert!(matches!(records, JsonValue::Array(ref a) if a.is_empty()));
}

#[test]
fn table_get_operation_and_request() {
    let op = GraphqlOperation::from_table_get(
        "/api/now/table/incident/abc",
        &params(&[("sysparm_fields", "number, state ,,"), ("sysparm_display_value", "all")]),
    )
    .unwrap()
    .unwrap();
    let request = op.request();
    assert!(request.query.starts_with("query TableGet("));
    assert!(matches!(request.variables.get("sysId"), Some(JsonValue::String(s)) if s == "abc"));
    match request.variables.get("fields") {
        Some(JsonValue::Array(a)) => assert_eq!(a.len(), 2),
        other => panic!("unexpected: {other:?}"),
    }
    assert!(matches!(request.variables.get("excludeReferenceLink"), Some(JsonValue::Bool(false))));
    assert!(GraphqlOperation::from_table_get("/api/now/table/incident", &[]).unwrap().is_none());
    assert!(GraphqlOperation::from_table_get("/api/now/table/incident/abc", &params(&[("sysparm_limit", "1")])).unwrap().is_none());
    assert!(matches!(GraphqlOperation::from_table_get("/api/now/stats/incident", &[]), Err(Error::Query(_))));
}

#[test]
fn list_request_variables() {
    let op = GraphqlOperation::from_table_list(
        "/api/now/table/incident",
        &params(&[("sysparm_limit", "5"), ("sysparm_offset", "x"), ("sysparm_no_count", "true")]),
    )
    .unwrap()
    .unwrap();
    let request = op.request();
    assert!(request.query.starts_with("query TableList("));
    assert!(matches!(request.variables.get("limit"), Some(JsonValue::Number(n)) if n == "5"));
    assert!(matches!(request.variables.get("offset"), Some(JsonValue::Null)));
    assert!(matches!(request.variables.get("query"), Some(JsonValue::Null)));
    assert!(matches!(request.variables.get("displayValue"), Some(JsonValue::String(s)) if s == "false"));
    assert!(GraphqlOperation::from_table_list("/api/now/table/incident", &params(&[("sysparm_view", "x")])).unwrap().is_none());
}

#[test]
fn selection_routes_by_field_count_or_preference() {
    let auto = TransportSelection::default();
    let few = params(&[("sysparm_fields", "a,b")]);
    let many = params(&[("sysparm_fields", "a,b,c")]);
    assert!(select_operation(&auto, "/api/now/table/incident", &few).unwrap().is_none());
    assert!(select_operation(&auto, "/api/now/table/incident", &many).unwrap().is_some());
    let graphql = TransportSelection::new(TransportMode::Graphql, true, 3);
    assert!(select_operation(&graphql, "/api/now/table/incident", &few).unwrap().is_some());
    assert!(select_operation(&auto, "/api/now/table/incident/abc", &[]).unwrap().is_some());
    assert!(select_operation(&auto, "/api/now/stats/incident", &many).unwrap().is_none());
}

#[test]
fn failed_graphql_reads_fall_back_when_allowed() {
    let fallback = TransportSelection::default();
    assert!(matches!(after_graphql(&fallback, Err(Error::Query("x".to_string()))), GraphqlOutcome::FallBack));
    let strict = TransportSelection::new(TransportMode::Graphql, false, 3);
    assert!(matches!(
        after_graphql(&strict, Err(Error::Query("x".to_string()))),
        GraphqlOutcome::Done(Err(Error::Query(_)))
    ));
    let ok = ServiceNowResponse { status: 200, result: JsonValue::Null, total_count: None, links: PaginationLinks::none() };
    assert!(matches!(after_graphql(&fallback, Ok(ok)), GraphqlOutcome::Done(Ok(_))));
}
