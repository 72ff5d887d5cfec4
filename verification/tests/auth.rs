use base64::engine::general_purpose::STANDARD;
use base64::Engine;
use servicenow_rs::auth::{BasicAuth, TokenAuth};

#[test]
fn test_basic_auth_encoding() {
    let auth = BasicAuth::new("admin", "password123");
    let expected = STANDARD.encode("admin:password123");
    assert_eq!(auth.encoded_credentials(), expected);
}

#[test]
fn test_supports_session_default() {
    let auth = BasicAuth::new("admin", "pass");
    assert!(auth.supports_session());
}

#[test]
fn test_without_session() {
    let auth = BasicAuth::new("admin", "pass").without_session();
    assert!(!auth.supports_session());
}

#[test]
fn test_method_name() {
    let auth = BasicAuth::new("admin", "pass");
    assert_eq!(auth.method_name(), "basic");
}

#[test]
fn test_bearer_token() {
    let auth = TokenAuth::bearer("my-secret-token");
    assert_eq!(auth.header_name(), "Authorization");
    assert_eq!(auth.header_prefix(), Some("Bearer"));
    assert_eq!(auth.method_name(), "token");
}

#[test]
fn test_custom_header() {
    let auth = TokenAuth::custom_header("X-sn-api-token", "my-token");
    assert_eq!(auth.header_name(), "X-sn-api-token");
    assert!(auth.header_prefix().is_none());
}

#[test]
fn test_no_session_support() {
    let auth = TokenAuth::bearer("token");
    assert!(!auth.supports_session());
}

#[test]
fn header_values() {
    let basic = BasicAuth::new("admin", "password123");
    assert_eq!(basic.authorization_value().as_str(), format!("Basic {}", STANDARD.encode("admin:password123")));
    assert_eq!(basic.username(), "admin");
    assert_eq!(TokenAuth::bearer("tok").authorization_value().as_str(), "Bearer tok");
    assert_eq!(TokenAuth::custom_header("X-Token", "tok").authorization_value().as_str(), "tok");
}
