//! The admin panel's requests and answers, and the check of its admin token.

use vstd::prelude::*;
use crate::text::trim_ws;
use crate::security::{byte_len, opt_chars};
use crate::rate_limit::FixedWindowRateLimiter;

verus! {

/// A recently created account, as the admin panel lists it.
#[derive(Debug, Clone)]
pub struct AdminUserRow {
    pub id: String,
    pub email: String,
    pub username: String,
    pub display_name: String,
    pub created_at: String,
}

/// A recent session, as the admin panel lists it.
#[derive(Debug, Clone)]
pub struct AdminSessionRow {
    pub token: String,
    pub user_id: String,
    pub ip_address: Option<String>,
    pub expires_at: String,
    pub created_at: String,
}

/// Totals and recent activity shown on the admin panel.
#[derive(Debug, Clone)]
pub struct AdminOverview {
    pub users_total: i64,
    pub sessions_total: i64,
    pub sessions_active: i64,
    pub recent_users: Vec<AdminUserRow>,
    pub recent_sessions: Vec<AdminSessionRow>,
}

/// A request to revoke the session with the given token.
#[derive(Debug, Clone)]
pub struct RevokeSessionRequest {
    pub token: String,
}

/// Whether a revoke request removed a session.
#[derive(Debug, Clone, Copy, PartialEq, Eq, Structural)]
pub struct RevokeSessionResponse {
    pub revoked: bool,
}

/// A request to ban an account, for a number of hours or for good.
#[derive(Debug, Clone)]
pub struct BanUserRequest {
    pub user_id: String,
    pub reason: String,
    pub duration_hours: Option<i64>,
}

/// Why an admin request was refused.
#[derive(Debug, Clone, Copy, PartialEq, Eq, Structural)]
pub enum AdminAuthError {
    /// No admin token of at least 32 bytes is configured.
    Disabled,
    /// The request's token is missing or wrong.
    Invalid,
}

impl AdminAuthError {
    /// The message sent back with the refusal.
    pub fn message(&self) -> (r: &'static str)
        ensures
            r@ == match self {
                AdminAuthError::Disabled => "admin panel disabled: set ADMIN_PANEL_TOKEN"@,
                AdminAuthError::Invalid => "invalid admin token"@,
            },
    {
        match self {
            AdminAuthError::Disabled => "admin panel disabled: set ADMIN_PANEL_TOKEN",
            AdminAuthError::Invalid => "invalid admin token",
        }
    }
}

/// The admin token a request carries: the `x-admin-token` header when it is
/// not empty, else the trimmed bearer token of the `Authorization` header.
pub open spec fn admin_token_from(x_admin: Option<Seq<char>>, authorization: Option<Seq<char>>) -> Option<Seq<char>> {
    if x_admin is Some && x_admin->0.len() > 0 {
        x_admin
    } else {
        crate::auth::bearer_token(authorization)
    }
}

/// The admin token carried by the `x-admin-token` and `Authorization` header
/// values (absent when missing or not text).
pub fn extract_admin_token(x_admin: Option<&str>, authorization: Option<&str>) -> (r: Option<String>)
    ensures
        match r {
            Some(t) => admin_token_from(opt_chars(x_admin), opt_chars(authorization)) == Some(t@),
            None => admin_token_from(opt_chars(x_admin), opt_chars(authorization)) is None,
        },
{
    if let Some(v) = x_admin {
        if !v.is_empty() {
            return Some(crate::text::to_owned_string(v));
        }
    }
    crate::auth::bearer_from_authorization(authorization)
}

/// The outcome of checking a presented admin token against the configured one.
pub open spec fn admin_check(expected: Seq<char>, got: Option<Seq<char>>) -> Result<(), AdminAuthError> {
    if byte_len(expected) < 32 {
        Err(AdminAuthError::Disabled)
    } else {
        match got {
            None => Err(AdminAuthError::Invalid),
            Some(g) => if g == expected {
                Ok(())
            } else {
                Err(AdminAuthError::Invalid)
            },
        }
    }
}

/// Checks the presented admin token `got` against the configured `expected`
/// one, comparing in constant time.
pub fn assert_admin(expected: &str, got: Option<&str>) -> (r: Result<(), AdminAuthError>)
    ensures
        r == admin_check(expected@, opt_chars(got)),
{
    if expected.as_bytes().len() < 32 {
        return Err(AdminAuthError::Disabled);
    }
    match got {
        None => Err(AdminAuthError::Invalid),
        Some(g) => if crate::security::constant_time_eq(g, expected) {
            Ok(())
        } else {
            Err(AdminAuthError::Invalid)
        },
    }
}

/// Counts an admin request from address `ip` at `now` on the sign-in limiter,
/// under the key `admin:<ip>`.
pub fn check_admin_rate_limit(limiter: &mut FixedWindowRateLimiter, ip: &str, now: u64) -> (b: bool)
    requires
        old(limiter).wf(),
    ensures
        final(limiter).wf(),
        (final(limiter)@, b) == old(limiter)@.allow_outcome(seq!['a', 'd', 'm', 'i', 'n'] + seq![':'] + ip@, now),
{
    proof {
        reveal_strlit("admin");
    }
    let key = crate::auth::rate_limit_key("admin", ip);
    proof {
        assert("admin"@ =~= seq!['a', 'd', 'm', 'i', 'n']);
    }
    limiter.allow(key.as_str(), now)
}

/// The message of an admin refusal.
pub open spec fn admin_error_text(e: AdminAuthError) -> Seq<char> {
    match e {
        AdminAuthError::Disabled => "admin panel disabled: set ADMIN_PANEL_TOKEN"@,
        AdminAuthError::Invalid => "invalid admin token"@,
    }
}

/// The check every admin request passes first: the per-address rate limit
/// (429 "Too many admin requests"), then the admin token carried by the
/// `x-admin-token` or `Authorization` header (401 with the reason). `Ok`
/// when the request may proceed.
pub fn admin_gate(
    limiter: &mut FixedWindowRateLimiter,
    ip: &str,
    now: u64,
    expected: &str,
    x_admin: Option<&str>,
    authorization: Option<&str>,
) -> (r: Result<(), (u16, &'static str)>)
    requires
        old(limiter).wf(),
    ensures
        final(limiter).wf(),
        ({
            let (after, allowed) = old(limiter)@.allow_outcome(
                seq!['a', 'd', 'm', 'i', 'n'] + seq![':'] + ip@,
                now,
            );
            &&& final(limiter)@ == after
            &&& !allowed ==> (r matches Err((status, m)) && status == 429 && m@
                == "Too many admin requests"@)
            &&& allowed ==> match admin_check(
                expected@,
                admin_token_from(opt_chars(x_admin), opt_chars(authorization)),
            ) {
                Ok(_) => r is Ok,
                Err(e) => r matches Err((status, m)) && status == 401 && m@ == admin_error_text(e),
            }
        }),
{
    if !check_admin_rate_limit(limiter, ip, now) {
        return Err((429, "Too many admin requests"));
    }
    let token = extract_admin_token(x_admin, authorization);
    let got: Option<&str> = match &token {
        Some(t) => Some(t.as_str()),
        None => None,
    };
    match assert_admin(expected, got) {
        Ok(()) => Ok(()),
        Err(e) => Err((401, e.message())),
    }
}

} // verus!
