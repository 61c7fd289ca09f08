use upsclr_server::error::AppError;
use upsclr_server::handlers::{validate_request_security, SecurityConfig};
use upsclr_server::headers::HeaderField;

fn config(ua: bool, req: bool) -> SecurityConfig {
    SecurityConfig { require_user_agent_prefix: ua, require_upsclr_request_header: req }
}

fn text(s: &str) -> HeaderField {
    HeaderField::Text(s.to_string())
}

fn forbidden_message(r: Result<(), AppError>) -> String {
    match r {
        Err(e) => {
            assert_eq!(e.status_code(), 403);
            match e {
                AppError::Forbidden(m) => m,
                _ => panic!("expected Forbidden"),
            }
        }
        Ok(()) => panic!("expected a refusal"),
    }
}

#[test]
fn test_no_validation_configured() {
    let r = validate_request_security(&config(false, false), &HeaderField::Absent, &HeaderField::Absent);
    assert!(r.is_ok());
}

#[test]
fn test_user_agent_validation_success_upsclr_slash() {
    let r = validate_request_security(&config(true, false), &text("Upsclr/1.0"), &HeaderField::Absent);
    assert!(r.is_ok());
}

#[test]
fn test_user_agent_validation_success_upsclr_dash() {
    let r = validate_request_security(&config(true, false), &text("Upsclr-client/2.1"), &HeaderField::Absent);
    assert!(r.is_ok());
}

#[test]
fn test_user_agent_validation_failure() {
    let r = validate_request_security(
        &config(true, false),
        &text("Mozilla/5.0 (Windows NT 10.0; Win64; x64)"),
        &HeaderField::Absent,
    );
    let body = forbidden_message(r);
    assert!(body.contains("Invalid User-Agent header"));
    assert!(body.contains("expected to start with 'Upsclr/' or 'Upsclr-'"));
    assert!(body.contains("Mozilla/5.0"));
}

#[test]
fn test_user_agent_validation_missing_header() {
    let r = validate_request_security(&config(true, false), &HeaderField::Absent, &HeaderField::Absent);
    assert!(forbidden_message(r).contains("Missing required User-Agent header"));
}

#[test]
fn test_upsclr_request_validation_success() {
    let r = validate_request_security(&config(false, true), &HeaderField::Absent, &text("true"));
    assert!(r.is_ok());
}

#[test]
fn test_upsclr_request_validation_failure_empty() {
    let r = validate_request_security(&config(false, true), &HeaderField::Absent, &text(""));
    assert!(forbidden_message(r).contains("Upsclr-Request header must not be empty"));
}

#[test]
fn test_upsclr_request_validation_missing_header() {
    let r = validate_request_security(&config(false, true), &HeaderField::Absent, &HeaderField::Absent);
    assert!(forbidden_message(r).contains("Missing required Upsclr-Request header"));
}

#[test]
fn test_both_validations_success() {
    let r = validate_request_security(&config(true, true), &text("Upsclr/1.0"), &text("upscale"));
    assert!(r.is_ok());
}

#[test]
fn test_both_validations_user_agent_fails() {
    let r = validate_request_security(&config(true, true), &text("BadClient/1.0"), &text("upscale"));
    assert!(forbidden_message(r).contains("Invalid User-Agent header"));
}

#[test]
fn test_both_validations_upsclr_request_fails() {
    let r = validate_request_security(&config(true, true), &text("Upsclr/1.0"), &text(""));
    assert!(forbidden_message(r).contains("Upsclr-Request header must not be empty"));
}

#[test]
fn test_user_agent_validation_case_sensitive() {
    let r = validate_request_security(&config(true, false), &text("upsclr/1.0"), &HeaderField::Absent);
    assert!(forbidden_message(r).contains("Invalid User-Agent header"));
}

#[test]
fn test_invalid_user_agent_header_format() {
    let r = validate_request_security(&config(true, false), &HeaderField::NotText, &HeaderField::Absent);
    assert!(forbidden_message(r).contains("Invalid User-Agent header format"));
}

#[test]
fn test_invalid_upsclr_request_header_format() {
    let r = validate_request_security(&config(false, true), &HeaderField::Absent, &HeaderField::NotText);
    assert!(forbidden_message(r).contains("Invalid Upsclr-Request header format"));
}

#[test]
fn test_security_config_clone() {
    let config = config(true, false);
    let config_clone = config.clone();
    assert_eq!(config.require_user_agent_prefix, config_clone.require_user_agent_prefix);
    assert_eq!(config.require_upsclr_request_header, config_clone.require_upsclr_request_header);
}

#[test]
fn test_config_debug_format() {
    let config = config(true, true);
    let debug_str = format!("{:?}", config);
    assert!(debug_str.contains("require_user_agent_prefix: true"));
    assert!(debug_str.contains("require_upsclr_request_header: true"));
}

#[test]
fn user_agent_is_checked_before_upsclr_request() {
    let r = validate_request_security(&config(true, true), &HeaderField::Absent, &HeaderField::Absent);
    assert_eq!(forbidden_message(r), "Missing required User-Agent header");
    let r = validate_request_security(&config(true, true), &text("Mozilla"), &HeaderField::Absent);
    assert_eq!(
        forbidden_message(r),
        "Invalid User-Agent header: expected to start with 'Upsclr/' or 'Upsclr-', got 'Mozilla'"
    );
}

#[test]
fn security_config_from_flags_negates_the_allowances() {
    let c = SecurityConfig::from_flags(true, false);
    assert!(!c.require_user_agent_prefix);
    assert!(c.require_upsclr_request_header);
    assert!(c.is_enabled());
    assert!(!SecurityConfig::from_flags(true, true).is_enabled());
}
