use glpi_mcp::config::{config_from_vars, parse_bool, GlpiVersion, Language};
use glpi_mcp::error::GlpiError;

#[test]
fn api_prefix_differs_by_version() {
    assert_eq!(GlpiVersion::V10.api_prefix(), "/apirest.php");
    assert_eq!(GlpiVersion::V11.api_prefix(), "/api.php/v1");
}

#[test]
fn parse_bool_accepts_common_truthy_falsy_forms() {
    assert!(parse_bool(Some("true"), false));
    assert!(parse_bool(Some("1"), false));
    assert!(!parse_bool(Some("false"), true));
    assert!(!parse_bool(Some("0"), true));
    assert!(parse_bool(None, true));
}

#[test]
fn parse_bool_ignores_case_and_keeps_default_for_other_text() {
    assert!(parse_bool(Some("YES"), false));
    assert!(parse_bool(Some("On"), false));
    assert!(!parse_bool(Some("Off"), true));
    assert!(parse_bool(Some("maybe"), true));
    assert!(!parse_bool(Some("maybe"), false));
}

fn s(v: &str) -> Option<String> {
    Some(v.to_string())
}

#[test]
fn config_reads_all_settings() {
    let c = config_from_vars(s("https://glpi.example.org//"), s("app"), s("user"), s("11"), s("yes"), s("en")).unwrap();
    assert_eq!(c.base_url, "https://glpi.example.org");
    assert_eq!(c.app_token, "app");
    assert_eq!(c.user_token, "user");
    assert_eq!(c.version, GlpiVersion::V11);
    assert!(c.verify_tls);
    assert_eq!(c.language, Language::En);
}

#[test]
fn config_defaults_to_glpi_10_french_without_tls_check() {
    let c = config_from_vars(s("http://glpi"), s("app"), s("user"), None, None, None).unwrap();
    assert_eq!(c.version, GlpiVersion::V10);
    assert!(!c.verify_tls);
    assert_eq!(c.language, Language::Fr);
}

#[test]
fn config_requires_the_url_and_tokens() {
    let e = config_from_vars(None, s("app"), s("user"), None, None, None).unwrap_err();
    assert_eq!(e, GlpiError::MissingEnv("GLPI_URL".to_string()));
    assert_eq!(e.message(), "missing required environment variable: GLPI_URL");
    let e = config_from_vars(s("u"), None, s("user"), None, None, None).unwrap_err();
    assert_eq!(e, GlpiError::MissingEnv("GLPI_APP_TOKEN".to_string()));
    let e = config_from_vars(s("u"), s("a"), None, None, None, None).unwrap_err();
    assert_eq!(e, GlpiError::MissingEnv("GLPI_USER_TOKEN".to_string()));
}

#[test]
fn config_rejects_an_unknown_version() {
    let e = config_from_vars(s("u"), s("a"), s("b"), s("9"), None, None).unwrap_err();
    assert_eq!(e.message(), "invalid configuration: GLPI_VERSION must be \"10\" or \"11\", got \"9\"");
}

#[test]
fn error_messages_read_as_displayed() {
    assert_eq!(GlpiError::Timeout.message(), "request timed out");
    assert_eq!(GlpiError::Http("boom".to_string()).message(), "HTTP request failed: boom");
    assert_eq!(
        GlpiError::SessionInvalid { code: "C".to_string(), message: "M".to_string() }.message(),
        "GLPI session invalid: C — M"
    );
    assert_eq!(GlpiError::Api { code: "C".to_string(), message: "M".to_string() }.message(), "GLPI API error C: M");
    assert_eq!(GlpiError::JsonParse("x".to_string()).message(), "failed to parse GLPI response: x");
    assert_eq!(GlpiError::InvalidResponse("x".to_string()).message(), "unexpected GLPI response shape: x");
    assert_eq!(GlpiError::InvalidConfig("x".to_string()).message(), "invalid configuration: x");
    assert!(GlpiError::SessionInvalid { code: String::new(), message: String::new() }.is_session_expired());
    assert!(!GlpiError::Timeout.is_session_expired());
}
