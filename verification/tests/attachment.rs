use servicenow_rs::api::attachment::{list_params, upload_params, validate_non_empty, validate_record_target, validate_upload};
use servicenow_rs::error::Error;
use servicenow_rs::model::attachment::optional_u64_from_json;
use servicenow_rs::model::json::JsonValue;

#[test]
fn upload_rejects_path_separator_in_file_name() {
    let err = validate_upload("../evidence.txt", "text/plain", 1).expect_err("invalid name");
    assert!(matches!(err, Error::Query(message) if message.contains("path separators")));
}

#[test]
fn upload_rejects_empty_body() {
    let err = validate_upload("evidence.txt", "text/plain", 0).expect_err("empty body");
    assert!(matches!(err, Error::Query(message) if message.contains("must not be empty")));
}

#[test]
fn upload_checks_in_order() {
    assert!(validate_upload("evidence.txt", "text/plain", 10).is_ok());
    assert!(matches!(validate_upload("  ", "", 0), Err(Error::Query(m)) if m == "file_name cannot be empty"));
    assert!(matches!(validate_upload("a\\b", "x", 1), Err(Error::Query(m)) if m == "attachment file_name must not contain path separators"));
    assert!(matches!(validate_upload("a.txt", " ", 1), Err(Error::Query(m)) if m == "content_type cannot be empty"));
}

#[test]
fn record_target_needs_a_plain_table_and_an_id() {
    assert!(validate_record_target("change_request", "abc").is_ok());
    assert!(matches!(validate_record_target("change request", "abc"), Err(Error::Query(m)) if m.starts_with("invalid table name: 'change request'")));
    assert!(matches!(validate_record_target("incident", " "), Err(Error::Query(m)) if m == "table_sys_id cannot be empty"));
    assert!(validate_non_empty("x", "name").is_ok());
}

#[test]
fn attachment_request_parameters() {
    let params = list_params("incident", "abc");
    assert_eq!(params[0], ("sysparm_query".to_string(), "table_name=incident^table_sys_id=abc".to_string()));
    assert!(params[1].1.starts_with("sys_id,file_name,content_type"));
    let upload = upload_params("incident", "abc", "a.txt");
    assert_eq!(upload[2], ("file_name".to_string(), "a.txt".to_string()));
}

#[test]
fn optional_sizes_from_numbers_and_strings() {
    assert_eq!(optional_u64_from_json(None), Ok(None));
    assert_eq!(optional_u64_from_json(Some(&JsonValue::Null)), Ok(None));
    assert_eq!(optional_u64_from_json(Some(&JsonValue::String(" 83338 ".to_string()))), Ok(Some(83338)));
    assert_eq!(optional_u64_from_json(Some(&JsonValue::String("".to_string()))), Ok(None));
    assert_eq!(optional_u64_from_json(Some(&JsonValue::Number("69391".to_string()))), Ok(Some(69391)));
    assert_eq!(optional_u64_from_json(Some(&JsonValue::Number("-1".to_string()))), Err("expected unsigned integer".to_string()));
    assert!(optional_u64_from_json(Some(&JsonValue::String("12a".to_string()))).is_err());
    assert_eq!(
        optional_u64_from_json(Some(&JsonValue::Bool(true))),
        Err("expected integer string, got true".to_string())
    );
}

#[test]
fn parses_attachment_metadata_number_strings() {
    let metadata = JsonValue::parse_text(
        r#"{
            "sys_id": "att-sys",
            "file_name": "evidence.jpeg",
            "table_name": "change_request",
            "table_sys_id": "chg-sys",
            "content_type": "image/jpeg",
            "size_bytes": "83338",
            "size_compressed": "69391",
            "download_link": "https://example.service-now.com/api/now/attachment/att-sys/file"
        }"#,
    )
    .expect("metadata");

    assert_eq!(optional_u64_from_json(metadata.get("size_bytes")), Ok(Some(83338)));
    assert_eq!(optional_u64_from_json(metadata.get("size_compressed")), Ok(Some(69391)));
    assert_eq!(metadata.get("file_name").and_then(|v| v.as_str()), Some("evidence.jpeg"));
}

#[test]
fn size_strings_that_do_not_parse_carry_the_parse_error() {
    assert_eq!(
        optional_u64_from_json(Some(&JsonValue::String(" 12a ".to_string()))),
        Err("invalid digit found in string".to_string())
    );
    assert_eq!(
        optional_u64_from_json(Some(&JsonValue::String("18446744073709551616".to_string()))),
        Err("number too large to fit in target type".to_string())
    );
    assert_eq!(
        optional_u64_from_json(Some(&JsonValue::String("+18446744073709551615".to_string()))),
        Ok(Some(u64::MAX))
    );
}
