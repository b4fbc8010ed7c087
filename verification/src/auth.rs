//! Account requests and responses, input normalization, request counters and
//! the session-token and rate-limit keys of the gateway's account endpoints.

use vstd::prelude::*;
use crate::text::{
    is_ws, trim_ws, ascii_lower, push_char, append_str, to_owned_string, has_prefix,
};

verus! {

/// A request to create an account.
#[derive(Debug, Clone)]
pub struct RegisterRequest {
    pub email: String,
    pub password: String,
    pub display_name: String,
    pub username: String,
    pub public_key: String,
}

/// A request to sign in, with a TOTP code when the account has one.
#[derive(Debug, Clone)]
pub struct LoginRequest {
    pub email: String,
    pub password: String,
    pub totp_code: Option<String>,
}

/// A request to turn on TOTP for an account.
#[derive(Debug, Clone)]
pub struct EnableTotpRequest {
    pub email: String,
    pub password: String,
    pub secret: String,
    pub code: String,
    /// The current TOTP code, required when TOTP is already on, so that the
    /// password alone cannot replace the second factor.
    pub existing_totp_code: Option<String>,
}

/// A freshly generated TOTP secret and its QR code (PNG, base64).
#[derive(Debug, Clone)]
pub struct TotpSetupResponse {
    pub secret: String,
    pub qr_png_base64: String,
}

/// An error answer.
#[derive(Debug, Clone)]
pub struct ErrorResponse {
    pub error: String,
}

/// The answer to a sign-out.
#[derive(Debug, Clone, Copy, PartialEq, Eq, Structural)]
pub struct LogoutResponse {
    pub revoked: bool,
}

/// The counters of the account endpoints at one moment.
#[derive(Debug, Clone, Copy, PartialEq, Eq, Structural)]
pub struct AuthMetricsSnapshot {
    pub register_attempts: u64,
    pub register_success: u64,
    pub login_attempts: u64,
    pub login_success: u64,
    pub totp_setup_attempts: u64,
    pub totp_setup_success: u64,
    pub totp_enable_attempts: u64,
    pub totp_enable_success: u64,
    pub logout_attempts: u64,
    pub logout_success: u64,
    pub rate_limited: u64,
    pub validation_errors: u64,
    pub auth_failures: u64,
    pub db_errors: u64,
}

/// One of the counters of the account endpoints.
#[derive(Debug, Clone, Copy, PartialEq, Eq, Structural)]
pub enum AuthCounter {
    RegisterAttempts,
    RegisterSuccess,
    LoginAttempts,
    LoginSuccess,
    TotpSetupAttempts,
    TotpSetupSuccess,
    TotpEnableAttempts,
    TotpEnableSuccess,
    LogoutAttempts,
    LogoutSuccess,
    RateLimited,
    ValidationErrors,
    AuthFailures,
    DbErrors,
}

/// `x + 1`, wrapping to zero past `u64::MAX`.
pub open spec fn wrap_inc(x: u64) -> u64 {
    if x == u64::MAX {
        0
    } else {
        (x + 1) as u64
    }
}

/// The snapshot with counter `c` increased by one, wrapping as an atomic
/// counter does.
pub open spec fn bumped(s: AuthMetricsSnapshot, c: AuthCounter) -> AuthMetricsSnapshot {
    match c {
        AuthCounter::RegisterAttempts => AuthMetricsSnapshot {
            register_attempts: wrap_inc(s.register_attempts),
            ..s
        },
        AuthCounter::RegisterSuccess => AuthMetricsSnapshot {
            register_success: wrap_inc(s.register_success),
            ..s
        },
        AuthCounter::LoginAttempts => AuthMetricsSnapshot {
            login_attempts: wrap_inc(s.login_attempts),
            ..s
        },
        AuthCounter::LoginSuccess => AuthMetricsSnapshot {
            login_success: wrap_inc(s.login_success),
            ..s
        },
        AuthCounter::TotpSetupAttempts => AuthMetricsSnapshot {
            totp_setup_attempts: wrap_inc(s.totp_setup_attempts),
            ..s
        },
        AuthCounter::TotpSetupSuccess => AuthMetricsSnapshot {
            totp_setup_success: wrap_inc(s.totp_setup_success),
            ..s
        },
        AuthCounter::TotpEnableAttempts => AuthMetricsSnapshot {
            totp_enable_attempts: wrap_inc(s.totp_enable_attempts),
            ..s
        },
        AuthCounter::TotpEnableSuccess => AuthMetricsSnapshot {
            totp_enable_success: wrap_inc(s.totp_enable_success),
            ..s
        },
        AuthCounter::LogoutAttempts => AuthMetricsSnapshot {
            logout_attempts: wrap_inc(s.logout_attempts),
            ..s
        },
        AuthCounter::LogoutSuccess => AuthMetricsSnapshot {
            logout_success: wrap_inc(s.logout_success),
            ..s
        },
        AuthCounter::RateLimited => AuthMetricsSnapshot {
            rate_limited: wrap_inc(s.rate_limited),
            ..s
        },
        AuthCounter::ValidationErrors => AuthMetricsSnapshot {
            validation_errors: wrap_inc(s.validation_errors),
            ..s
        },
        AuthCounter::AuthFailures => AuthMetricsSnapshot {
            auth_failures: wrap_inc(s.auth_failures),
            ..s
        },
        AuthCounter::DbErrors => AuthMetricsSnapshot { db_errors: wrap_inc(s.db_errors), ..s },
    }
}

/// The counters of the account endpoints.
pub struct AuthMetrics {
    counts: AuthMetricsSnapshot,
}

impl View for AuthMetrics {
    type V = AuthMetricsSnapshot;

    closed spec fn view(&self) -> AuthMetricsSnapshot {
        self.counts
    }
}

/// All counters at zero.
pub open spec fn zero_snapshot() -> AuthMetricsSnapshot {
    AuthMetricsSnapshot {
        register_attempts: 0,
        register_success: 0,
        login_attempts: 0,
        login_success: 0,
        totp_setup_attempts: 0,
        totp_setup_success: 0,
        totp_enable_attempts: 0,
        totp_enable_success: 0,
        logout_attempts: 0,
        logout_success: 0,
        rate_limited: 0,
        validation_errors: 0,
        auth_failures: 0,
        db_errors: 0,
    }
}

impl Default for AuthMetrics {
    fn default() -> (r: Self)
        ensures
            r@ == zero_snapshot(),
    {
        AuthMetrics {
            counts: AuthMetricsSnapshot {
                register_attempts: 0,
                register_success: 0,
                login_attempts: 0,
                login_success: 0,
                totp_setup_attempts: 0,
                totp_setup_success: 0,
                totp_enable_attempts: 0,
                totp_enable_success: 0,
                logout_attempts: 0,
                logout_success: 0,
                rate_limited: 0,
                validation_errors: 0,
                auth_failures: 0,
                db_errors: 0,
            },
        }
    }
}

impl AuthMetrics {
    /// Increases counter `c` by one.
    pub fn increment(&mut self, c: AuthCounter)
        ensures
            final(self)@ == bumped(old(self)@, c),
    {
        let s = self.counts;
        self.counts = match c {
            AuthCounter::RegisterAttempts => AuthMetricsSnapshot {
                register_attempts: s.register_attempts.wrapping_add(1),
                ..s
            },
            AuthCounter::RegisterSuccess => AuthMetricsSnapshot {
                register_success: s.register_success.wrapping_add(1),
                ..s
            },
            AuthCounter::LoginAttempts => AuthMetricsSnapshot {
                login_attempts: s.login_attempts.wrapping_add(1),
                ..s
            },
            AuthCounter::LoginSuccess => AuthMetricsSnapshot {
                login_success: s.login_success.wrapping_add(1),
                ..s
            },
            AuthCounter::TotpSetupAttempts => AuthMetricsSnapshot {
                totp_setup_attempts: s.totp_setup_attempts.wrapping_add(1),
                ..s
            },
            AuthCounter::TotpSetupSuccess => AuthMetricsSnapshot {
                totp_setup_success: s.totp_setup_success.wrapping_add(1),
                ..s
            },
            AuthCounter::TotpEnableAttempts => AuthMetricsSnapshot {
                totp_enable_attempts: s.totp_enable_attempts.wrapping_add(1),
                ..s
            },
            AuthCounter::TotpEnableSuccess => AuthMetricsSnapshot {
                totp_enable_success: s.totp_enable_success.wrapping_add(1),
                ..s
            },
            AuthCounter::LogoutAttempts => AuthMetricsSnapshot {
                logout_attempts: s.logout_attempts.wrapping_add(1),
                ..s
            },
            AuthCounter::LogoutSuccess => AuthMetricsSnapshot {
                logout_success: s.logout_success.wrapping_add(1),
                ..s
            },
            AuthCounter::RateLimited => AuthMetricsSnapshot {
                rate_limited: s.rate_limited.wrapping_add(1),
                ..s
            },
            AuthCounter::ValidationErrors => AuthMetricsSnapshot {
                validation_errors: s.validation_errors.wrapping_add(1),
                ..s
            },
            AuthCounter::AuthFailures => AuthMetricsSnapshot {
                auth_failures: s.auth_failures.wrapping_add(1),
                ..s
            },
            AuthCounter::DbErrors => AuthMetricsSnapshot {
                db_errors: s.db_errors.wrapping_add(1),
                ..s
            },
        };
    }

    /// The current value of every counter.
    pub fn metrics_snapshot(&self) -> (r: AuthMetricsSnapshot)
        ensures
            r == self@,
    {
        self.counts
    }
}

/// Whether a sign-in password is worth checking: 1 to 128 bytes.
pub fn is_reasonable_password_input(password: &str) -> (b: bool)
    ensures
        b == (0 < crate::security::byte_len(password@) <= 128),
{
    let len = password.as_bytes().len();
    len > 0 && len <= 128
}

/// An e-mail address as stored: trimmed and in ASCII lower case.
pub fn normalize_email(email: &str) -> (r: String)
    ensures
        r@ == ascii_lower(trim_ws(email@)),
{
    let t = crate::text::trim(email);
    crate::text::to_ascii_lower(t.as_str())
}

/// A user name as stored: trimmed and in ASCII lower case.
pub fn normalize_username(username: &str) -> (r: String)
    ensures
        r@ == ascii_lower(trim_ws(username@)),
{
    let t = crate::text::trim(username);
    crate::text::to_ascii_lower(t.as_str())
}

/// A display name as stored: trimmed.
pub fn normalize_display_name(display_name: &str) -> (r: String)
    ensures
        r@ == trim_ws(display_name@),
{
    crate::text::trim(display_name)
}

/// A public key as stored: trimmed.
pub fn normalize_public_key(public_key: &str) -> (r: String)
    ensures
        r@ == trim_ws(public_key@),
{
    crate::text::trim(public_key)
}

/// A TOTP secret as used: every white-space character removed.
pub fn normalize_totp_secret(secret: &str) -> (r: String)
    ensures
        r@ == secret@.filter(|c: char| !is_ws(c)),
{
    let mut r = String::new();
    for c in it: secret.chars()
        invariant
            it.seq() == secret@,
            r@ == secret@.take(it.index() as int).filter(|c: char| !is_ws(c)),
    {
        proof {
            let t = secret@.take(it.index() + 1);
            assert(t.drop_last() =~= secret@.take(it.index() as int));
            assert(t.last() == c);
            reveal(Seq::filter);
        }
        if !crate::text::is_whitespace(c) {
            push_char(&mut r, c);
        }
    }
    proof {
        assert(secret@.take(secret@.len() as int) =~= secret@);
    }
    r
}

/// The rate-limit key of a request: the scope, a colon, and the client address.
pub fn rate_limit_key(scope: &str, ip: &str) -> (r: String)
    ensures
        r@ == scope@ + seq![':'] + ip@,
{
    let mut r = to_owned_string(scope);
    push_char(&mut r, ':');
    append_str(&mut r, ip);
    r
}

/// The session token a request carries: the trimmed `x-session-token` header
/// when it is not blank, else the trimmed rest of an `Authorization: Bearer `
/// header when that is not blank.
pub open spec fn session_token_from(x_session: Option<Seq<char>>, authorization: Option<Seq<char>>) -> Option<Seq<char>> {
    if x_session is Some && trim_ws(x_session->0).len() > 0 {
        Some(trim_ws(x_session->0))
    } else {
        bearer_token(authorization)
    }
}

/// The bearer token of an `Authorization` header, trimmed, when not blank.
pub open spec fn bearer_token(authorization: Option<Seq<char>>) -> Option<Seq<char>> {
    match authorization {
        Some(a) => {
            let prefix = seq!['B', 'e', 'a', 'r', 'e', 'r', ' '];
            if has_prefix(a, prefix) && trim_ws(a.subrange(7, a.len() as int)).len() > 0 {
                Some(trim_ws(a.subrange(7, a.len() as int)))
            } else {
                None
            }
        },
        None => None,
    }
}

/// The trimmed bearer token of an `Authorization` header value, if any.
pub fn bearer_from_authorization(authorization: Option<&str>) -> (r: Option<String>)
    ensures
        match r {
            Some(t) => bearer_token(crate::security::opt_chars(authorization)) == Some(t@),
            None => bearer_token(crate::security::opt_chars(authorization)) is None,
        },
{
    match authorization {
        None => None,
        Some(a) => {
            proof {
                reveal_strlit("Bearer ");
                assert("Bearer "@ =~= seq!['B', 'e', 'a', 'r', 'e', 'r', ' ']);
            }
            match crate::text::strip_prefix(a, "Bearer ") {
                None => None,
                Some(rest) => {
                    let t = crate::text::trim(rest.as_str());
                    if t.as_str().is_empty() {
                        None
                    } else {
                        Some(t)
                    }
                },
            }
        },
    }
}

/// The session token carried by the `x-session-token` and `Authorization`
/// header values (absent when missing or not text).
pub fn extract_session_token(x_session: Option<&str>, authorization: Option<&str>) -> (r: Option<
    String,
>)
    ensures
        match r {
            Some(t) => session_token_from(
                crate::security::opt_chars(x_session),
                crate::security::opt_chars(authorization),
            ) == Some(t@),
            None => session_token_from(
                crate::security::opt_chars(x_session),
                crate::security::opt_chars(authorization),
            ) is None,
        },
{
    if let Some(v) = x_session {
        let t = crate::text::trim(v);
        if !t.as_str().is_empty() {
            return Some(t);
        }
    }
    bearer_from_authorization(authorization)
}

} // verus!
