use servicenow_rs::error::Error;
use servicenow_rs::model::json::JsonValue;
use servicenow_rs::model::result::QueryResult;
use servicenow_rs::model::record::Record;
use servicenow_rs::transport::response::{PaginationLinks, ServiceNowResponse};
use servicenow_rs::transport::retry::{after_response, after_send_error, exhausted, is_retryable_status, should_refresh, RetryAction};

#[test]
fn test_should_retry_status() {
    assert!(is_retryable_status(429));
    assert!(is_retryable_status(503));
    assert!(!is_retryable_status(200));
    assert!(!is_retryable_status(400));
    assert!(!is_retryable_status(404));
}

#[test]
fn retry_decisions() {
    assert!(should_refresh(401, 0, 3));
    assert!(!should_refresh(401, 3, 3));
    assert!(matches!(after_response(0, 3, 429, Err(Error::RateLimited { retry_after: Some(2) })), RetryAction::Retry { retry_after: Some(2), .. }));
    assert!(matches!(after_response(3, 3, 429, Err(Error::RateLimited { retry_after: Some(2) })), RetryAction::Finish(Err(Error::RateLimited { .. }))));
    let api = || Error::Api { status: 503, message: "HTTP 503".to_string(), detail: None };
    assert!(matches!(after_response(1, 3, 503, Err(api())), RetryAction::Retry { retry_after: None, .. }));
    assert!(matches!(after_response(1, 3, 404, Err(api())), RetryAction::Finish(Err(_))));
    let ok = ServiceNowResponse { status: 200, result: JsonValue::Null, total_count: None, links: PaginationLinks::none() };
    assert!(matches!(after_response(0, 3, 200, Ok(ok)), RetryAction::Finish(Ok(_))));
    assert!(matches!(after_send_error(0, 1, Error::Http("reset".to_string())), RetryAction::Retry { .. }));
    assert!(matches!(after_send_error(1, 1, Error::Http("reset".to_string())), RetryAction::Finish(Err(Error::Http(_)))));
    assert!(matches!(exhausted(None), Error::Api { status: 0, message, .. } if message == "max retries exceeded"));
}

#[test]
fn error_messages() {
    assert_eq!(Error::Api { status: 404, message: "No Record found".to_string(), detail: None }.to_string(), "API error (404): No Record found");
    assert_eq!(Error::RateLimited { retry_after: Some(5) }.to_string(), "rate limited, retry after Some(5)s");
    assert_eq!(Error::RateLimited { retry_after: None }.to_string(), "rate limited, retry after Nones");
    assert_eq!(Error::Config("x".to_string()).to_string(), "configuration error: x");
    assert_eq!(Error::PartialResult { succeeded: 2, failed: 1, errors: vec![] }.to_string(), "partial result: 2 succeeded, 1 failed");
    assert_eq!(Error::Auth { message: "bad".to_string(), status: Some(401) }.to_string(), "authentication failed: bad");
}

#[test]
fn query_results() {
    let empty = QueryResult::empty();
    assert!(empty.is_empty() && empty.is_ok() && !empty.has_errors());
    assert_eq!(empty.total_count, Some(0));
    let result = QueryResult::new(vec![Record::new("incident", "a"), Record::new("incident", "b")]);
    assert_eq!(result.len(), 2);
    assert_eq!(result.first().unwrap().sys_id, "a");
    assert_eq!(result.iter().len(), 2);
    assert_eq!(result.total_count, None);
    assert_eq!(result.into_records().len(), 2);
}
