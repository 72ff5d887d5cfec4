use servicenow_rs::client::{
    browser_url, browser_url_by_id, browser_url_for_number, default_timeout_secs, resolve_auth_from_config,
    resolve_base_url, resolve_max_retries, resolve_rate_limit, resolve_schema, table_for_number_or_error,
    transport_selection, uses_graphql, validate_identifier, AuthChoice, SchemaPlan,
};
use servicenow_rs::config::{is_http_url, normalize_instance_url, Config, EnvSettings, OAuthConfig};
use servicenow_rs::error::Error;
use servicenow_rs::prefix::PrefixRegistry;
use servicenow_rs::transport::selection::TransportMode;

fn no_env() -> EnvSettings {
    EnvSettings {
        instance: None,
        username: None,
        password: None,
        oauth_client_id: None,
        oauth_client_secret: None,
        api_token: None,
        schema_path: None,
    }
}

#[test]
fn test_normalize_bare_name() {
    assert_eq!(normalize_instance_url("mycompany").unwrap(), "https://mycompany.service-now.com");
}

#[test]
fn test_normalize_full_url() {
    assert_eq!(
        normalize_instance_url("https://mycompany.service-now.com").unwrap(),
        "https://mycompany.service-now.com"
    );
}

#[test]
fn test_normalize_trailing_slash() {
    assert_eq!(
        normalize_instance_url("https://mycompany.service-now.com/").unwrap(),
        "https://mycompany.service-now.com"
    );
}

#[test]
fn test_normalize_custom_domain() {
    assert_eq!(normalize_instance_url("servicenow.mycompany.com").unwrap(), "https://servicenow.mycompany.com");
}

#[test]
fn test_normalize_empty() {
    assert!(normalize_instance_url("").is_err());
}

#[test]
fn normalize_errors_are_configuration_errors() {
    assert!(matches!(normalize_instance_url("   "), Err(Error::Config(m)) if m == "instance URL/name cannot be empty"));
    assert!(matches!(normalize_instance_url("http://[bad"), Err(Error::Config(m)) if m.starts_with("invalid instance URL 'http://[bad': ")));
    assert_eq!(normalize_instance_url("  http://localhost:8080/  ").unwrap(), "http://localhost:8080");
}

#[test]
fn http_scheme_is_recognised() {
    assert!(is_http_url("http://localhost:8080/"));
    assert!(!is_http_url("https://x.service-now.com/"));
}

#[test]
fn environment_overrides_the_file() {
    let mut config = Config::default();
    config.instance.url = Some("file-instance".to_string());
    config.auth.username = Some("file-user".to_string());
    let env = EnvSettings {
        instance: Some("env-instance".to_string()),
        oauth_client_secret: Some("secret".to_string()),
        schema_path: Some("overlay.json".to_string()),
        ..no_env()
    };
    config.apply_env_settings(env);
    assert_eq!(config.instance.url.as_deref(), Some("env-instance"));
    assert_eq!(config.auth.username.as_deref(), Some("file-user"));
    let oauth: &OAuthConfig = config.auth.oauth.as_ref().unwrap();
    assert_eq!(oauth.client_secret.as_deref(), Some("secret"));
    assert!(oauth.client_id.is_none());
    assert_eq!(config.schema.overlay.as_deref(), Some("overlay.json"));
    config.apply_env_settings(no_env());
    assert_eq!(config.instance.url.as_deref(), Some("env-instance"));
}

#[test]
fn default_config_transport() {
    let config = Config::default();
    assert_eq!(config.transport.preferred, TransportMode::Auto);
    assert!(config.transport.graphql_fallback);
    assert_eq!(config.transport.graphql_batch_threshold, 3);
    let selection = transport_selection(&config);
    assert!(!uses_graphql(&selection));
    assert_eq!(default_timeout_secs(&config), 30);
    assert_eq!(resolve_max_retries(None, &config), 3);
    assert_eq!(resolve_max_retries(Some(5), &config), 5);
    assert_eq!(resolve_rate_limit(None, &config), None);
}

#[test]
fn auth_follows_the_configured_method() {
    let mut config = Config::default();
    assert!(matches!(resolve_auth_from_config(&config), Err(Error::Config(m)) if m.starts_with("basic auth requires username")));
    config.auth.username = Some("admin".to_string());
    assert!(matches!(resolve_auth_from_config(&config), Err(Error::Config(m)) if m.starts_with("basic auth requires password")));
    config.auth.password = Some("pw".to_string());
    assert!(matches!(resolve_auth_from_config(&config), Ok(AuthChoice::Basic { username, password }) if username == "admin" && password == "pw"));
    config.auth.method = Some("bearer".to_string());
    assert!(matches!(resolve_auth_from_config(&config), Err(Error::Config(m)) if m.starts_with("token auth requires a token")));
    config.auth.token = Some("tok".to_string());
    assert!(matches!(resolve_auth_from_config(&config), Ok(AuthChoice::Token(t)) if t == "tok"));
    config.auth.method = Some("oauth".to_string());
    assert!(matches!(resolve_auth_from_config(&config), Err(Error::Config(m)) if m == "unsupported auth method 'oauth'. Available: basic, token"));
}

#[test]
fn base_url_needs_an_instance_and_https() {
    let mut config = Config::default();
    assert!(matches!(resolve_base_url(None, &config, false), Err(Error::Config(m)) if m.starts_with("instance URL not configured")));
    config.instance.url = Some("mycompany".to_string());
    assert_eq!(resolve_base_url(None, &config, false).unwrap(), "https://mycompany.service-now.com");
    assert_eq!(resolve_base_url(Some("other"), &config, false).unwrap(), "https://other.service-now.com");
    assert!(matches!(resolve_base_url(Some("http://localhost:9000"), &config, false), Err(Error::Config(m)) if m.starts_with("HTTP URLs are not allowed")));
    assert_eq!(resolve_base_url(Some("http://localhost:9000"), &config, true).unwrap(), "http://localhost:9000");
}

#[test]
fn schema_plan_needs_a_release() {
    let mut config = Config::default();
    assert!(matches!(resolve_schema(None, true, &config), SchemaPlan::NoSchema));
    assert!(matches!(resolve_schema(Some("xanadu"), false, &config), SchemaPlan::Release(r) if r == "xanadu"));
    config.schema.release = Some("yokohama".to_string());
    config.schema.overlay = Some("custom.json".to_string());
    assert!(matches!(resolve_schema(None, false, &config), SchemaPlan::ReleaseWithConfigOverlay(r, p) if r == "yokohama" && p == "custom.json"));
    assert!(matches!(resolve_schema(Some("xanadu"), true, &config), SchemaPlan::ReleaseWithOverlayOverride(r) if r == "xanadu"));
}

#[test]
fn browser_links() {
    let base = "https://instance.service-now.com";
    assert_eq!(
        browser_url(base, "incident", "INC0012345").unwrap(),
        "https://instance.service-now.com/nav_to.do?uri=incident.do?sysparm_query=number=INC0012345"
    );
    assert_eq!(
        browser_url_by_id(base, "incident", "abc123def456").unwrap(),
        "https://instance.service-now.com/nav_to.do?uri=incident.do?sys_id=abc123def456"
    );
    assert!(matches!(browser_url(base, "incident", "INC1&x=1"), Err(Error::Query(_))));
    assert!(matches!(validate_identifier("", "sys_id"), Err(Error::Query(m)) if m.starts_with("invalid sys_id: ''")));
    let registry = PrefixRegistry::default();
    assert_eq!(
        browser_url_for_number(base, &registry, "INC0012345").unwrap().unwrap(),
        "https://instance.service-now.com/nav_to.do?uri=incident.do?sysparm_query=number=INC0012345"
    );
    assert!(browser_url_for_number(base, &registry, "ZZZ1").is_none());
    assert_eq!(table_for_number_or_error(&registry, "CHG0307336").unwrap(), "change_request");
    assert!(matches!(table_for_number_or_error(&registry, "ZZZ1"), Err(Error::Query(m)) if m.starts_with("cannot resolve table for number 'ZZZ1'")));
}
