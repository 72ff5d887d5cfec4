use servicenow_rs::error::Error;
use servicenow_rs::model::json::JsonValue;
use servicenow_rs::transport::response::{extract_error_message, interpret_response, parse_link_header};

#[test]
fn test_extract_error_message() {
    let body = r#"{"error":{"message":"Record not found","detail":"Could not find record"}}"#;
    assert_eq!(extract_error_message(body), Some("Record not found".to_string()));
}

#[test]
fn test_extract_error_message_invalid_json() {
    assert_eq!(extract_error_message("not json"), None);
}

#[test]
fn test_extract_error_message_no_error_field() {
    assert_eq!(extract_error_message(r#"{"result": []}"#), None);
}

#[test]
fn test_parse_link_header() {
    let header = r#"<https://instance.service-now.com/api/now/table/incident?sysparm_limit=3&sysparm_offset=0>;rel="first",<https://instance.service-now.com/api/now/table/incident?sysparm_limit=3&sysparm_offset=3>;rel="next",<https://instance.service-now.com/api/now/table/incident?sysparm_limit=3&sysparm_offset=99>;rel="last""#;
    let links = parse_link_header(header);
    assert!(links.first.is_some());
    assert!(links.next.is_some());
    assert!(links.last.is_some());
    assert!(links.prev.is_none());
    assert!(links.has_next());
}

#[test]
fn test_parse_link_header_with_prev() {
    let header = r#"<https://x.com?offset=0>;rel="first",<https://x.com?offset=0>;rel="prev",<https://x.com?offset=6>;rel="next",<https://x.com?offset=99>;rel="last""#;
    let links = parse_link_header(header);
    assert!(links.first.is_some());
    assert!(links.prev.is_some());
    assert!(links.next.is_some());
    assert!(links.last.is_some());
}

#[test]
fn test_parse_link_header_empty() {
    let links = parse_link_header("");
    assert!(!links.has_next());
}

#[test]
fn link_header_urls_are_kept_exactly() {
    let links = parse_link_header(r#"<https://x.com?offset=6>; rel="next""#);
    assert_eq!(links.next.as_deref(), Some("https://x.com?offset=6"));
    assert!(links.first.is_none());
}

#[test]
fn unauthorized_uses_error_message_or_default() {
    match interpret_response(401, None, None, None, r#"{"error":{"message":"User Not Authenticated"}}"#) {
        Err(Error::Auth { message, status }) => {
            assert_eq!(message, "User Not Authenticated");
            assert_eq!(status, Some(401));
        },
        other => panic!("unexpected: {other:?}"),
    }
    match interpret_response(403, None, None, None, "") {
        Err(Error::Auth { message, status }) => {
            assert_eq!(message, "forbidden");
            assert_eq!(status, Some(403));
        },
        other => panic!("unexpected: {other:?}"),
    }
}

#[test]
fn rate_limit_carries_retry_after() {
    match interpret_response(429, None, None, Some("7"), "") {
        Err(Error::RateLimited { retry_after }) => assert_eq!(retry_after, Some(7)),
        other => panic!("unexpected: {other:?}"),
    }
    match interpret_response(429, None, None, Some("soon"), "") {
        Err(Error::RateLimited { retry_after }) => assert_eq!(retry_after, None),
        other => panic!("unexpected: {other:?}"),
    }
}

#[test]
fn no_content_is_a_null_result() {
    let resp = interpret_response(204, Some("12"), None, None, "").unwrap();
    assert!(matches!(resp.result, JsonValue::Null));
    assert_eq!(resp.status, 204);
    assert_eq!(resp.total_count, Some(12));
}

#[test]
fn result_member_is_returned() {
    let resp = interpret_response(
        200,
        Some("3"),
        Some(r#"<https://x.com?offset=3>;rel="next""#),
        None,
        r#"{"result": [{"number": "INC1"}]}"#,
    )
    .unwrap();
    assert!(matches!(resp.result, JsonValue::Array(ref a) if a.len() == 1));
    assert_eq!(resp.total_count, Some(3));
    assert!(resp.links.has_next());
}

#[test]
fn error_body_and_bad_status_are_api_errors() {
    match interpret_response(404, None, None, None, r#"{"error":{"message":"No Record found","detail":"Record doesn't exist"}}"#) {
        Err(Error::Api { status, message, detail }) => {
            assert_eq!(status, 404);
            assert_eq!(message, "No Record found");
            assert_eq!(detail.as_deref(), Some("Record doesn't exist"));
        },
        other => panic!("unexpected: {other:?}"),
    }
    match interpret_response(500, None, None, None, r#"{"oops": true}"#) {
        Err(Error::Api { status, message, detail }) => {
            assert_eq!(status, 500);
            assert_eq!(message, "HTTP 500");
            assert_eq!(detail.as_deref(), Some(r#"{"oops": true}"#));
        },
        other => panic!("unexpected: {other:?}"),
    }
}

#[test]
fn non_json_body_is_an_api_error() {
    match interpret_response(200, None, None, None, "<html>") {
        Err(Error::Api { status, message, detail }) => {
            assert_eq!(status, 200);
            assert!(message.starts_with("failed to parse response JSON: "));
            assert_eq!(detail.as_deref(), Some("<html>"));
        },
        other => panic!("unexpected: {other:?}"),
    }
}
