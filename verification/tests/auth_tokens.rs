use saoirse::auth::{scope_list_contains, Token, TokenService};
use saoirse::error::{Error, SessionError, TokenError};
use saoirse::health::{HealthCheckResponse, HealthStatus};

fn signed_token(sub: &str, scope: &str, secret: &[u8]) -> String {
    let mut claims = serde_json::Map::new();
    claims.insert("sub".to_string(), serde_json::Value::String(sub.to_string()));
    claims.insert("scope".to_string(), serde_json::Value::String(scope.to_string()));
    // Far in the future, so the default expiry check passes.
    claims.insert(
        "exp".to_string(),
        serde_json::Value::Number(serde_json::Number::from(4102444800u64)),
    );
    jsonwebtoken::encode(
        &jsonwebtoken::Header::default(),
        &serde_json::Value::Object(claims),
        &jsonwebtoken::EncodingKey::from_secret(secret),
    )
    .expect("signing a test token succeeds")
}

#[test]
fn bearer_parse_extracts_credential() {
    let t = Token::from_str("Bearer abc.def.ghi").unwrap();
    assert_eq!(t.0, "abc.def.ghi");
}

#[test]
fn bearer_parse_keeps_empty_credential() {
    let t = Token::from_str("Bearer ").unwrap();
    assert_eq!(t.0, "");
}

#[test]
fn bearer_parse_rejects_other_shapes() {
    assert!(Token::from_str("Token abc").is_err());
    assert!(Token::from_str("Bearer").is_err());
    assert!(Token::from_str("bearer abc").is_err());
    assert!(Token::from_str("").is_err());
}

#[test]
fn scope_list_membership() {
    assert!(scope_list_contains("a,b,c", "b"));
    assert!(scope_list_contains("alpha", "alpha"));
    assert!(!scope_list_contains("alpha", "alph"));
    assert!(!scope_list_contains("abc", "b"));
    assert!(!scope_list_contains("ab,cd", "b"));
    // Splitting on commas keeps empty entries, as an empty list is one
    // empty entry.
    assert!(scope_list_contains("", ""));
    assert!(scope_list_contains("a,,b", ""));
    assert!(!scope_list_contains("a,b", ""));
}

#[test]
fn validate_token_accepts_matching_scope() {
    let service = TokenService::from_secret("sessions".to_string(), b"shared-secret");
    let token = signed_token("app-1", "other,sessions", b"shared-secret");
    let claims = service.validate_token(&token).expect("a well-scoped token validates");
    assert_eq!(claims.sub, "app-1");
    assert_eq!(claims.scope, "other,sessions");
}

#[test]
fn validate_token_rejects_missing_scope() {
    let service = TokenService::from_secret("sessions".to_string(), b"shared-secret");
    let token = signed_token("app-1", "other,unrelated", b"shared-secret");
    assert_eq!(service.validate_token(&token).unwrap_err(), TokenError::BadAppToken);
}

#[test]
fn validate_token_rejects_wrong_key() {
    let service = TokenService::from_secret("sessions".to_string(), b"shared-secret");
    let token = signed_token("app-1", "sessions", b"another-secret");
    assert_eq!(service.validate_token(&token).unwrap_err(), TokenError::BadAppToken);
}

#[test]
fn validate_token_rejects_garbage() {
    let service = TokenService::from_secret("sessions".to_string(), b"shared-secret");
    assert_eq!(service.validate_token("not-a-token").unwrap_err(), TokenError::BadAppToken);
}

#[test]
fn token_service_rejects_bad_public_key() {
    assert!(TokenService::new("sessions".to_string(), b"not a pem key").is_none());
}

#[test]
fn error_taxonomy_conversions() {
    assert_eq!(Error::from(SessionError::AttributeNotPresent), Error::AttributeNotPresent);
    assert_eq!(Error::from(TokenError::BadAppToken), Error::BadAppCredential);
    assert_eq!(SessionError::AttributeNotPresent.message(), "Session attribute not present");
    assert_eq!(TokenError::BadAppToken.message(), "Bad app token");
}

#[test]
fn health_probe_reports_ok() {
    let r = HealthCheckResponse::ok();
    assert_eq!(r.status, HealthStatus::OK);
}
