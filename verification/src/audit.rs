//! Event and failure codes used in the security audit trail.

use vstd::prelude::*;

verus! {

/// Security and operational event types for audit logging.
#[derive(Debug, Clone, Copy, PartialEq, Eq, Structural)]
pub enum SecurityEventType {
    LoginSuccess,
    LoginFailure,
    Registration,
    TotpSetup,
    TotpEnabled,
    Logout,
    RateLimitExceeded,
    AccountSuspended,
    ValidationError,
    DatabaseError,
}

/// The audit code of an event type.
pub open spec fn event_code(e: SecurityEventType) -> Seq<char> {
    match e {
        SecurityEventType::LoginSuccess => "LOGIN_SUCCESS"@,
        SecurityEventType::LoginFailure => "LOGIN_FAILURE"@,
        SecurityEventType::Registration => "REGISTRATION"@,
        SecurityEventType::TotpSetup => "TOTP_SETUP"@,
        SecurityEventType::TotpEnabled => "TOTP_ENABLED"@,
        SecurityEventType::Logout => "LOGOUT"@,
        SecurityEventType::RateLimitExceeded => "RATE_LIMIT_EXCEEDED"@,
        SecurityEventType::AccountSuspended => "ACCOUNT_SUSPENDED"@,
        SecurityEventType::ValidationError => "VALIDATION_ERROR"@,
        SecurityEventType::DatabaseError => "DATABASE_ERROR"@,
    }
}

impl SecurityEventType {
    /// The stable upper-case code written to the audit log.
    pub fn as_str(&self) -> (s: &'static str)
        ensures
            s@ == event_code(*self),
    {
        match self {
            SecurityEventType::LoginSuccess => "LOGIN_SUCCESS",
            SecurityEventType::LoginFailure => "LOGIN_FAILURE",
            SecurityEventType::Registration => "REGISTRATION",
            SecurityEventType::TotpSetup => "TOTP_SETUP",
            SecurityEventType::TotpEnabled => "TOTP_ENABLED",
            SecurityEventType::Logout => "LOGOUT",
            SecurityEventType::RateLimitExceeded => "RATE_LIMIT_EXCEEDED",
            SecurityEventType::AccountSuspended => "ACCOUNT_SUSPENDED",
            SecurityEventType::ValidationError => "VALIDATION_ERROR",
            SecurityEventType::DatabaseError => "DATABASE_ERROR",
        }
    }
}

/// Reason codes for authentication failures.
#[derive(Debug, Clone, Copy, PartialEq, Eq, Structural)]
pub enum FailureReason {
    UserNotFound,
    InvalidPassword,
    TotpRequired,
    InvalidTotp,
    AccountBanned,
    RateLimited,
    InvalidInput,
    InternalError,
}

/// The audit code of a failure reason.
pub open spec fn reason_code(r: FailureReason) -> Seq<char> {
    match r {
        FailureReason::UserNotFound => "USER_NOT_FOUND"@,
        FailureReason::InvalidPassword => "INVALID_PASSWORD"@,
        FailureReason::TotpRequired => "TOTP_REQUIRED"@,
        FailureReason::InvalidTotp => "INVALID_TOTP"@,
        FailureReason::AccountBanned => "ACCOUNT_BANNED"@,
        FailureReason::RateLimited => "RATE_LIMITED"@,
        FailureReason::InvalidInput => "INVALID_INPUT"@,
        FailureReason::InternalError => "INTERNAL_ERROR"@,
    }
}

impl FailureReason {
    /// The stable upper-case code written to the audit log.
    pub fn as_str(&self) -> (s: &'static str)
        ensures
            s@ == reason_code(*self),
    {
        match self {
            FailureReason::UserNotFound => "USER_NOT_FOUND",
            FailureReason::InvalidPassword => "INVALID_PASSWORD",
            FailureReason::TotpRequired => "TOTP_REQUIRED",
            FailureReason::InvalidTotp => "INVALID_TOTP",
            FailureReason::AccountBanned => "ACCOUNT_BANNED",
            FailureReason::RateLimited => "RATE_LIMITED",
            FailureReason::InvalidInput => "INVALID_INPUT",
            FailureReason::InternalError => "INTERNAL_ERROR",
        }
    }
}

/// Severity of an audit log line.
#[derive(Debug, Clone, Copy, PartialEq, Eq, Structural)]
pub enum AuditLevel {
    Info,
    Warn,
    Error,
}

/// How an audit event is logged: its level, its message, and which of the
/// event's details go into the line.
#[derive(Debug, Clone, Copy)]
pub struct AuditPlan {
    pub level: AuditLevel,
    pub message: &'static str,
    pub client_ip: bool,
    pub user_id: bool,
    pub email: bool,
    /// The failure reason's code.
    pub reason: bool,
    /// The additional context, under the name `context`.
    pub context: bool,
    /// The additional context, under the name `reason`.
    pub context_as_reason: bool,
}

/// The level and message of the audit line for an event.
pub open spec fn plan_header(e: SecurityEventType) -> (AuditLevel, Seq<char>) {
    match e {
        SecurityEventType::LoginSuccess => (AuditLevel::Info, "Authentication successful"@),
        SecurityEventType::LoginFailure => (AuditLevel::Warn, "Authentication failed"@),
        SecurityEventType::Registration => (AuditLevel::Info, "User registration"@),
        SecurityEventType::TotpSetup => (AuditLevel::Info, "2FA configuration changed"@),
        SecurityEventType::TotpEnabled => (AuditLevel::Info, "2FA configuration changed"@),
        SecurityEventType::Logout => (AuditLevel::Info, "Session logout"@),
        SecurityEventType::RateLimitExceeded => (AuditLevel::Warn, "Rate limit exceeded"@),
        SecurityEventType::AccountSuspended => (AuditLevel::Warn, "Account suspended access attempt"@),
        SecurityEventType::ValidationError => (AuditLevel::Warn, "Invalid request format"@),
        SecurityEventType::DatabaseError => (AuditLevel::Error, "Database error during authentication"@),
    }
}

/// Which details the audit line of an event carries: address, user id,
/// e-mail, failure reason, context, context named as reason.
pub open spec fn plan_fields(e: SecurityEventType) -> (bool, bool, bool, bool, bool, bool) {
    match e {
        SecurityEventType::LoginSuccess => (true, true, true, false, false, false),
        SecurityEventType::LoginFailure => (true, true, true, true, true, false),
        SecurityEventType::Registration => (true, true, true, false, false, false),
        SecurityEventType::TotpSetup => (true, true, false, false, false, false),
        SecurityEventType::TotpEnabled => (true, true, false, false, false, false),
        SecurityEventType::Logout => (true, true, false, false, false, false),
        SecurityEventType::RateLimitExceeded => (true, true, true, false, false, false),
        SecurityEventType::AccountSuspended => (true, true, false, false, false, true),
        SecurityEventType::ValidationError => (true, false, false, false, true, false),
        SecurityEventType::DatabaseError => (false, false, false, false, true, false),
    }
}

/// How the audit line of `event_type` is written; the event's code is always
/// part of it.
pub fn audit_plan(event_type: SecurityEventType) -> (p: AuditPlan)
    ensures
        (p.level, p.message@) == plan_header(event_type),
        (p.client_ip, p.user_id, p.email, p.reason, p.context, p.context_as_reason) == plan_fields(
            event_type,
        ),
{
    let (level, message, fields) = match event_type {
        SecurityEventType::LoginSuccess => (
            AuditLevel::Info,
            "Authentication successful",
            (true, true, true, false, false, false),
        ),
        SecurityEventType::LoginFailure => (
            AuditLevel::Warn,
            "Authentication failed",
            (true, true, true, true, true, false),
        ),
        SecurityEventType::Registration => (
            AuditLevel::Info,
            "User registration",
            (true, true, true, false, false, false),
        ),
        SecurityEventType::TotpSetup | SecurityEventType::TotpEnabled => (
            AuditLevel::Info,
            "2FA configuration changed",
            (true, true, false, false, false, false),
        ),
        SecurityEventType::Logout => (
            AuditLevel::Info,
            "Session logout",
            (true, true, false, false, false, false),
        ),
        SecurityEventType::RateLimitExceeded => (
            AuditLevel::Warn,
            "Rate limit exceeded",
            (true, true, true, false, false, false),
        ),
        SecurityEventType::AccountSuspended => (
            AuditLevel::Warn,
            "Account suspended access attempt",
            (true, true, false, false, false, true),
        ),
        SecurityEventType::ValidationError => (
            AuditLevel::Warn,
            "Invalid request format",
            (true, false, false, false, true, false),
        ),
        SecurityEventType::DatabaseError => (
            AuditLevel::Error,
            "Database error during authentication",
            (false, false, false, false, true, false),
        ),
    };
    AuditPlan {
        level,
        message,
        client_ip: fields.0,
        user_id: fields.1,
        email: fields.2,
        reason: fields.3,
        context: fields.4,
        context_as_reason: fields.5,
    }
}

} // verus!
