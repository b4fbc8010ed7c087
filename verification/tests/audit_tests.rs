use wavry_core::audit::{audit_plan, AuditLevel, FailureReason, SecurityEventType};

#[test]
fn test_event_type_strings() {
    assert_eq!(SecurityEventType::LoginSuccess.as_str(), "LOGIN_SUCCESS");
    assert_eq!(SecurityEventType::LoginFailure.as_str(), "LOGIN_FAILURE");
    assert_eq!(
        SecurityEventType::RateLimitExceeded.as_str(),
        "RATE_LIMIT_EXCEEDED"
    );
}

#[test]
fn test_failure_reason_strings() {
    assert_eq!(FailureReason::UserNotFound.as_str(), "USER_NOT_FOUND");
    assert_eq!(FailureReason::InvalidPassword.as_str(), "INVALID_PASSWORD");
    assert_eq!(FailureReason::TotpRequired.as_str(), "TOTP_REQUIRED");
}

#[test]
fn audit_plan_login_failure_carries_reason_and_context() {
    let p = audit_plan(SecurityEventType::LoginFailure);
    assert_eq!(p.level, AuditLevel::Warn);
    assert_eq!(p.message, "Authentication failed");
    assert!(p.client_ip && p.user_id && p.email && p.reason && p.context);
    assert!(!p.context_as_reason);
}

#[test]
fn audit_plan_database_error_is_error_level_with_context_only() {
    let p = audit_plan(SecurityEventType::DatabaseError);
    assert_eq!(p.level, AuditLevel::Error);
    assert_eq!(p.message, "Database error during authentication");
    assert!(!p.client_ip && !p.user_id && !p.email && !p.reason);
    assert!(p.context);
}

#[test]
fn audit_plan_totp_events_share_message() {
    let a = audit_plan(SecurityEventType::TotpSetup);
    let b = audit_plan(SecurityEventType::TotpEnabled);
    assert_eq!(a.message, "2FA configuration changed");
    assert_eq!(b.message, a.message);
    assert!(!a.email);
}
