//! Registration, sign-out and TOTP setup and activation as state machines,
//! in the manner of the sign-in flow.

use vstd::prelude::*;
use crate::audit::SecurityEventType;
use crate::auth::{AuthCounter, AuthMetrics, bumped, RegisterRequest, EnableTotpRequest, LoginRequest};
use crate::auth_flow::{
    act, reply, join_key, AuthAction, AuthNext, AuditNote, ActionView, NextView, plain, reject, ov,
    PasswordCheck, TotpCheck, AccountInfo,
};
use crate::rate_limit::FixedWindowRateLimiter;
use crate::text::{trim_ws, ascii_lower, contains_sub};
use crate::security::{
    valid_email, valid_password, valid_display_name, valid_username, valid_public_key_hex,
    valid_session_token, valid_totp_code, byte_len, hex_lower, sha256_digest,
};

verus! {

/// Counts a request on the sign-in limiter under `<scope>:<ip>`, answering
/// 429 "Too many requests" (and counting it) when refused.
fn rate_limited_start(
    scope: &str,
    ip: &str,
    limiter: &mut FixedWindowRateLimiter,
    now_mono: u64,
) -> (r: Option<AuthAction>)
    requires
        old(limiter).wf(),
    ensures
        final(limiter).wf(),
        ({
            let (lim, allowed) = old(limiter)@.allow_outcome(scope@ + seq![':'] + ip@, now_mono);
            &&& final(limiter)@ == lim
            &&& allowed ==> r is None
            &&& !allowed ==> r is Some && r->0@ == reject(
                Some(AuthCounter::RateLimited),
                429,
                "Too many requests"@,
            )
        }),
{
    let key = crate::auth::rate_limit_key(scope, ip);
    if limiter.allow(key.as_str(), now_mono) {
        None
    } else {
        Some(reply(Some(AuthCounter::RateLimited), 429, "Too many requests"))
    }
}

/// Where a registration stands.
#[derive(Debug, Clone, Copy, PartialEq, Eq, Structural)]
pub enum RegisterStage {
    /// Waiting for the lookup of an existing account with the e-mail address.
    Existing,
    /// Waiting for the password hash.
    Hash,
    /// Waiting for the new account.
    CreateUser,
    /// Waiting for the new session.
    Session,
    Finished,
}

/// The outcome of creating an account.
#[derive(Debug, Clone)]
pub enum CreateUserOutcome {
    /// Created, with this id.
    Created(String),
    /// The database refused, with this message.
    Failed(String),
}

/// An event of a registration.
#[derive(Debug)]
pub enum RegisterEvent {
    /// Whether an account with the e-mail address exists (`Err` when the
    /// lookup failed).
    Existing(Result<bool, String>),
    /// Whether the password could be hashed.
    Hashed(bool),
    CreateUser(CreateUserOutcome),
    /// Whether the session was created.
    Session(bool),
}

/// A registration in progress, with the normalized fields of the request.
pub struct RegisterFlow {
    pub stage: RegisterStage,
    pub email: String,
    pub username: String,
    pub display_name: String,
    pub public_key: String,
    /// The id of the account once it is created.
    pub user_id: Option<String>,
}

/// Whether a database error message reports a duplicate e-mail address or
/// user name (in any ASCII case).
pub open spec fn duplicate_account(err: Seq<char>) -> bool {
    let lower = ascii_lower(err);
    contains_sub(lower, "unique"@) && (contains_sub(lower, "users.email"@) || contains_sub(
        lower,
        "users.username"@,
    ))
}

/// The normalized fields of a registration request pass every check.
pub open spec fn registration_valid(
    email: Seq<char>,
    password: Seq<char>,
    display_name: Seq<char>,
    username: Seq<char>,
    public_key: Seq<char>,
) -> bool {
    valid_email(email) && valid_password(password) && valid_display_name(display_name)
        && valid_username(username) && valid_public_key_hex(public_key)
}

/// The step of a registration at `stage` with the account id `user_id` so far.
pub open spec fn register_step(
    stage: RegisterStage,
    user_id: Option<Seq<char>>,
    email: Seq<char>,
    e: RegisterEvent,
) -> (RegisterStage, Option<Seq<char>>, ActionView) {
    match (stage, e) {
        (RegisterStage::Existing, RegisterEvent::Existing(r)) => if r == Ok::<bool, String>(true) {
            (
                RegisterStage::Finished,
                user_id,
                reject(Some(AuthCounter::AuthFailures), 409, "Email already exists"@),
            )
        } else {
            (RegisterStage::Hash, user_id, plain(None, NextView::HashPassword))
        },
        (RegisterStage::Hash, RegisterEvent::Hashed(ok)) => if ok {
            (RegisterStage::CreateUser, user_id, plain(None, NextView::CreateUser))
        } else {
            (RegisterStage::Finished, user_id, reject(None, 500, "Hashing failed"@))
        },
        (RegisterStage::CreateUser, RegisterEvent::CreateUser(o)) => match o {
            CreateUserOutcome::Created(id) => (
                RegisterStage::Session,
                Some(id@),
                plain(None, NextView::CreateSession(id@)),
            ),
            CreateUserOutcome::Failed(err) => if duplicate_account(err@) {
                (
                    RegisterStage::Finished,
                    user_id,
                    reject(Some(AuthCounter::AuthFailures), 409, "Account already exists"@),
                )
            } else {
                (
                    RegisterStage::Finished,
                    user_id,
                    reject(Some(AuthCounter::DbErrors), 500, "Database error"@),
                )
            },
        },
        (RegisterStage::Session, RegisterEvent::Session(ok)) => if ok {
            (
                RegisterStage::Finished,
                user_id,
                ActionView {
                    audit: Some((SecurityEventType::Registration, None, None)),
                    ..plain(Some(AuthCounter::RegisterSuccess), NextView::Succeed)
                },
            )
        } else {
            (
                RegisterStage::Finished,
                user_id,
                reject(Some(AuthCounter::DbErrors), 500, "Session creation failed"@),
            )
        },
        _ => (stage, user_id, reject(None, 500, "Unexpected registration step"@)),
    }
}

impl RegisterFlow {
    /// Starts a registration from `ip`: counts the attempt, applies the
    /// sign-in rate limit (key `register:<ip>`), normalizes and checks the
    /// request, and asks whether the e-mail address is taken.
    pub fn start(
        request: &RegisterRequest,
        ip: &str,
        limiter: &mut FixedWindowRateLimiter,
        metrics: &mut AuthMetrics,
        now_mono: u64,
    ) -> (r: (RegisterFlow, AuthAction))
        requires
            old(limiter).wf(),
        ensures
            final(limiter).wf(),
            final(metrics)@ == bumped(old(metrics)@, AuthCounter::RegisterAttempts),
            r.0.email@ == ascii_lower(trim_ws(request.email@)),
            r.0.username@ == ascii_lower(trim_ws(request.username@)),
            r.0.display_name@ == trim_ws(request.display_name@),
            r.0.public_key@ == trim_ws(request.public_key@),
            r.0.user_id is None,
            ({
                let (lim, allowed) = old(limiter)@.allow_outcome(
                    "register"@ + seq![':'] + ip@,
                    now_mono,
                );
                let ok = registration_valid(
                    r.0.email@,
                    request.password@,
                    r.0.display_name@,
                    r.0.username@,
                    r.0.public_key@,
                );
                &&& final(limiter)@ == lim
                &&& !allowed ==> r.0.stage == RegisterStage::Finished && r.1@ == reject(
                    Some(AuthCounter::RateLimited),
                    429,
                    "Too many requests"@,
                )
                &&& (allowed && !ok) ==> r.0.stage == RegisterStage::Finished && r.1@ == reject(
                    Some(AuthCounter::ValidationErrors),
                    400,
                    "Invalid registration payload"@,
                )
                &&& (allowed && ok) ==> r.0.stage == RegisterStage::Existing && r.1@ == plain(
                    None,
                    NextView::LookupUser(r.0.email@),
                )
            }),
    {
        metrics.increment(AuthCounter::RegisterAttempts);
        let refused = rate_limited_start("register", ip, limiter, now_mono);
        let email = crate::auth::normalize_email(request.email.as_str());
        let username = crate::auth::normalize_username(request.username.as_str());
        let display_name = crate::auth::normalize_display_name(request.display_name.as_str());
        let public_key = crate::auth::normalize_public_key(request.public_key.as_str());
        let mut flow = RegisterFlow {
            stage: RegisterStage::Finished,
            email,
            username,
            display_name,
            public_key,
            user_id: None,
        };
        if let Some(a) = refused {
            return (flow, a);
        }
        let ok = crate::security::is_valid_email(flow.email.as_str())
            && crate::security::is_valid_password(request.password.as_str())
            && crate::security::is_valid_display_name(flow.display_name.as_str())
            && crate::security::is_valid_username(flow.username.as_str())
            && crate::security::is_valid_public_key_hex(flow.public_key.as_str());
        if !ok {
            return (
                flow,
                reply(Some(AuthCounter::ValidationErrors), 400, "Invalid registration payload"),
            );
        }
        flow.stage = RegisterStage::Existing;
        let lookup = AuthNext::LookupUser(flow.email.clone());
        (flow, act(None, lookup))
    }

    /// The next step once `event` came back.
    pub fn step(&mut self, event: RegisterEvent) -> (a: AuthAction)
        ensures
            (final(self).stage, ov(final(self).user_id), a@) == register_step(
                old(self).stage,
                ov(old(self).user_id),
                old(self).email@,
                event,
            ),
            final(self).email@ == old(self).email@,
            final(self).username@ == old(self).username@,
            final(self).display_name@ == old(self).display_name@,
            final(self).public_key@ == old(self).public_key@,
    {
        match (self.stage, event) {
            (RegisterStage::Existing, RegisterEvent::Existing(r)) => {
                let exists = match r {
                    Ok(b) => b,
                    Err(_) => false,
                };
                if exists {
                    self.stage = RegisterStage::Finished;
                    reply(Some(AuthCounter::AuthFailures), 409, "Email already exists")
                } else {
                    self.stage = RegisterStage::Hash;
                    act(None, AuthNext::HashPassword)
                }
            },
            (RegisterStage::Hash, RegisterEvent::Hashed(ok)) => {
                if ok {
                    self.stage = RegisterStage::CreateUser;
                    act(None, AuthNext::CreateUser)
                } else {
                    self.stage = RegisterStage::Finished;
                    reply(None, 500, "Hashing failed")
                }
            },
            (RegisterStage::CreateUser, RegisterEvent::CreateUser(o)) => match o {
                CreateUserOutcome::Created(id) => {
                    self.stage = RegisterStage::Session;
                    let sid = id.clone();
                    self.user_id = Some(id);
                    act(None, AuthNext::CreateSession(sid))
                },
                CreateUserOutcome::Failed(err) => {
                    self.stage = RegisterStage::Finished;
                    let lower = crate::text::to_ascii_lower(err.as_str());
                    let l = lower.as_str();
                    if crate::text::contains_str(l, "unique") && (crate::text::contains_str(
                        l,
                        "users.email",
                    ) || crate::text::contains_str(l, "users.username")) {
                        reply(Some(AuthCounter::AuthFailures), 409, "Account already exists")
                    } else {
                        reply(Some(AuthCounter::DbErrors), 500, "Database error")
                    }
                },
            },
            (RegisterStage::Session, RegisterEvent::Session(ok)) => {
                self.stage = RegisterStage::Finished;
                if ok {
                    let mut a = act(Some(AuthCounter::RegisterSuccess), AuthNext::Succeed);
                    a.audit = Some(
                        AuditNote {
                            event: SecurityEventType::Registration,
                            reason: None,
                            context: None,
                        },
                    );
                    a
                } else {
                    reply(Some(AuthCounter::DbErrors), 500, "Session creation failed")
                }
            },
            _ => reply(None, 500, "Unexpected registration step"),
        }
    }
}

/// The rate-limit key of a sign-out after the request limit:
/// `logout:<ip>:<hash of the token>`.
pub open spec fn logout_key(ip: Seq<char>, token: Seq<char>) -> Seq<char> {
    "logout"@ + seq![':'] + ip + seq![':'] + hex_lower(sha256_digest(vstd::utf8::encode_utf8(token)))
}

/// Starts a sign-out from `ip` with the session-token headers: counts the
/// attempt, applies the sign-in rate limit (key `logout:<ip>`), reads and
/// checks the token, and applies the per-token limit on `token_limiter`.
/// `Ok` holds the token to revoke.
pub fn logout_start(
    x_session: Option<&str>,
    authorization: Option<&str>,
    ip: &str,
    limiter: &mut FixedWindowRateLimiter,
    token_limiter: &mut FixedWindowRateLimiter,
    metrics: &mut AuthMetrics,
    now_mono: u64,
) -> (r: Result<String, AuthAction>)
    requires
        old(limiter).wf(),
        old(token_limiter).wf(),
    ensures
        final(limiter).wf(),
        final(token_limiter).wf(),
        final(metrics)@ == bumped(old(metrics)@, AuthCounter::LogoutAttempts),
        ({
            let (lim, allowed) = old(limiter)@.allow_outcome("logout"@ + seq![':'] + ip@, now_mono);
            let token = crate::auth::session_token_from(
                crate::security::opt_chars(x_session),
                crate::security::opt_chars(authorization),
            );
            &&& final(limiter)@ == lim
            &&& !allowed ==> r is Err && r->Err_0@ == reject(
                Some(AuthCounter::RateLimited),
                429,
                "Too many requests"@,
            ) && final(token_limiter)@ == old(token_limiter)@
            &&& (allowed && token is None) ==> r is Err && r->Err_0@ == reject(
                Some(AuthCounter::ValidationErrors),
                400,
                "Missing bearer token"@,
            ) && final(token_limiter)@ == old(token_limiter)@
            &&& (allowed && token is Some && !valid_session_token(token->0)) ==> r is Err
                && r->Err_0@ == reject(
                Some(AuthCounter::ValidationErrors),
                400,
                "Invalid session token"@,
            ) && final(token_limiter)@ == old(token_limiter)@
            &&& (allowed && token is Some && valid_session_token(token->0)) ==> {
                let (tl, token_ok) = old(token_limiter)@.allow_outcome(
                    logout_key(ip@, token->0),
                    now_mono,
                );
                &&& final(token_limiter)@ == tl
                &&& token_ok ==> r is Ok && r->Ok_0@ == token->0
                &&& !token_ok ==> r is Err && r->Err_0@ == reject(
                    Some(AuthCounter::RateLimited),
                    429,
                    "Too many logout requests"@,
                )
            }
        }),
{
    metrics.increment(AuthCounter::LogoutAttempts);
    if let Some(a) = rate_limited_start("logout", ip, limiter, now_mono) {
        return Err(a);
    }
    let token = match crate::auth::extract_session_token(x_session, authorization) {
        Some(t) => t,
        None => return Err(reply(Some(AuthCounter::ValidationErrors), 400, "Missing bearer token")),
    };
    if !crate::security::is_valid_session_token(token.as_str()) {
        return Err(reply(Some(AuthCounter::ValidationErrors), 400, "Invalid session token"));
    }
    let mut key = crate::auth::rate_limit_key("logout", ip);
    crate::text::push_char(&mut key, ':');
    let hashed = crate::security::hash_token(token.as_str());
    crate::text::append_str(&mut key, hashed.as_str());
    proof {
        assert(key@ =~= logout_key(ip@, token@));
    }
    if !token_limiter.allow(key.as_str(), now_mono) {
        return Err(reply(Some(AuthCounter::RateLimited), 429, "Too many logout requests"));
    }
    Ok(token)
}

/// Finishes a sign-out once the revocation came back: `Ok` with whether a
/// session was revoked, `Err` with the database's message. On success the
/// answer is the [`crate::auth::LogoutResponse`].
pub fn logout_finish(result: Result<bool, String>) -> (r: (AuthAction, Option<
    crate::auth::LogoutResponse,
>))
    ensures
        match result {
            Ok(revoked) => r.0@ == (ActionView {
                audit: Some((SecurityEventType::Logout, None, None)),
                ..plain(Some(AuthCounter::LogoutSuccess), NextView::Succeed)
            }) && r.1 == Some(crate::auth::LogoutResponse { revoked }),
            Err(e) => r.0@ == (ActionView {
                audit: Some((SecurityEventType::DatabaseError, None, Some(e@))),
                ..reject(Some(AuthCounter::DbErrors), 500, "Logout failed"@)
            }) && r.1 is None,
        },
{
    match result {
        Ok(revoked) => {
            let mut a = act(Some(AuthCounter::LogoutSuccess), AuthNext::Succeed);
            a.audit = Some(
                AuditNote { event: SecurityEventType::Logout, reason: None, context: None },
            );
            (a, Some(crate::auth::LogoutResponse { revoked }))
        },
        Err(e) => {
            let mut a = reply(Some(AuthCounter::DbErrors), 500, "Logout failed");
            a.audit = Some(
                AuditNote { event: SecurityEventType::DatabaseError, reason: None, context: Some(e) },
            );
            (a, None)
        },
    }
}

/// Which TOTP request a [`TotpFlow`] serves.
#[derive(Debug, Clone, Copy, PartialEq, Eq, Structural)]
pub enum TotpKind {
    /// Generate a new secret to show to the user.
    Setup,
    /// Turn TOTP on with a secret and a code from it.
    Enable,
}

/// Where a TOTP request stands.
#[derive(Debug, Clone, Copy, PartialEq, Eq, Structural)]
pub enum TotpStage {
    User,
    Password,
    /// Waiting for the check of the current TOTP code.
    ExistingTotp,
    /// Waiting for the new secret and QR code.
    Generate,
    /// Waiting for the check of the new secret and code.
    NewTotp,
    /// Waiting for the new secret to be stored.
    Store,
    /// Waiting for the account to be read again.
    Refetch,
    Session,
    Finished,
}

/// The outcome of generating a TOTP secret and its QR code.
#[derive(Debug, Clone, Copy, PartialEq, Eq, Structural)]
pub enum GenerateOutcome {
    SecretFailed,
    QrFailed,
    Generated,
}

/// The outcome of checking the new secret and the code made from it.
#[derive(Debug, Clone, Copy, PartialEq, Eq, Structural)]
pub enum NewTotpCheck {
    InvalidSecret,
    Rejected,
    Accepted,
}

/// The outcome of storing the new secret.
#[derive(Debug, Clone, Copy, PartialEq, Eq, Structural)]
pub enum StoreOutcome {
    EncryptFailed,
    DbFailed,
    Stored,
}

/// An event of a TOTP request.
#[derive(Debug)]
pub enum TotpEvent {
    User(Result<Option<AccountInfo>, String>),
    Password(PasswordCheck),
    ExistingTotp(TotpCheck),
    Generated(GenerateOutcome),
    NewTotp(NewTotpCheck),
    Stored(StoreOutcome),
    /// Whether the account was found again (`Err` when the read failed).
    Refetched(Result<bool, String>),
    /// Whether the session was created.
    Session(bool),
}

/// A TOTP setup or activation in progress.
pub struct TotpFlow {
    pub kind: TotpKind,
    pub stage: TotpStage,
    /// The normalized e-mail address.
    pub email: String,
    /// The normalized new secret (activation only).
    pub secret: String,
    /// The current TOTP code the request carries, if any.
    pub current_code: Option<String>,
    pub user_id: Option<String>,
}

/// The message when the current code is missing.
pub open spec fn code_required_msg(k: TotpKind) -> Seq<char> {
    match k {
        TotpKind::Setup => "Current 2FA code required to change 2FA settings"@,
        TotpKind::Enable => "Current 2FA code required to replace 2FA settings"@,
    }
}

/// The message when the current code is malformed.
pub open spec fn code_format_msg(k: TotpKind) -> Seq<char> {
    match k {
        TotpKind::Setup => "Invalid 2FA code format"@,
        TotpKind::Enable => "Invalid existing 2FA code format"@,
    }
}

/// The message when the current code is wrong.
pub open spec fn code_rejected_msg(k: TotpKind) -> Seq<char> {
    match k {
        TotpKind::Setup => "Invalid current 2FA code"@,
        TotpKind::Enable => "Invalid existing 2FA code"@,
    }
}

/// Where a TOTP request goes once the current code (if any) is settled.
pub open spec fn after_existing(k: TotpKind) -> (TotpStage, NextView) {
    match k {
        TotpKind::Setup => (TotpStage::Generate, NextView::GenerateTotp),
        TotpKind::Enable => (TotpStage::NewTotp, NextView::CheckNewTotp),
    }
}

/// Abstract state of a [`TotpFlow`].
pub ghost struct TotpView {
    pub kind: TotpKind,
    pub stage: TotpStage,
    pub email: Seq<char>,
    pub secret: Seq<char>,
    pub current_code: Option<Seq<char>>,
    pub user_id: Option<Seq<char>>,
}

impl TotpFlow {
    pub open spec fn view(&self) -> TotpView {
        TotpView {
            kind: self.kind,
            stage: self.stage,
            email: self.email@,
            secret: self.secret@,
            current_code: ov(self.current_code),
            user_id: ov(self.user_id),
        }
    }
}

/// The step of a TOTP request in `v` on `e`.
pub open spec fn totp_step(v: TotpView, e: TotpEvent) -> (TotpView, ActionView) {
    let done = TotpView { stage: TotpStage::Finished, ..v };
    match (v.stage, e) {
        (TotpStage::User, TotpEvent::User(r)) => match r {
            Ok(Some(acct)) => (
                TotpView {
                    stage: if acct.has_totp {
                        TotpStage::ExistingTotp
                    } else {
                        TotpStage::Password
                    },
                    user_id: Some(acct.id@),
                    ..v
                },
                plain(None, NextView::VerifyPassword),
            ),
            _ => (done, reject(Some(AuthCounter::AuthFailures), 401, "Auth failed"@)),
        },
        (TotpStage::Password, TotpEvent::Password(p)) | (TotpStage::ExistingTotp, TotpEvent::Password(p)) => match p {
            PasswordCheck::BadStoredHash => (done, reject(None, 500, "Invalid stored hash"@)),
            PasswordCheck::Mismatch => (done, reject(Some(AuthCounter::AuthFailures), 401, "Auth failed"@)),
            PasswordCheck::Match => if v.stage == TotpStage::Password {
                (TotpView { stage: after_existing(v.kind).0, ..v }, plain(None, after_existing(v.kind).1))
            } else if v.current_code is None || v.current_code->0.len() == 0 {
                (done, reject(Some(AuthCounter::AuthFailures), 401, code_required_msg(v.kind)))
            } else if !valid_totp_code(v.current_code->0) {
                (done, reject(Some(AuthCounter::ValidationErrors), 400, code_format_msg(v.kind)))
            } else {
                (v, plain(None, NextView::VerifyTotp(v.current_code->0)))
            },
        },
        (TotpStage::ExistingTotp, TotpEvent::ExistingTotp(t)) => match t {
            TotpCheck::SecretUnavailable | TotpCheck::GeneratorUnavailable => (
                done,
                reject(None, 500, "2FA verification unavailable"@),
            ),
            TotpCheck::Rejected => (done, reject(Some(AuthCounter::AuthFailures), 401, code_rejected_msg(v.kind))),
            TotpCheck::Accepted => (
                TotpView { stage: after_existing(v.kind).0, ..v },
                plain(None, after_existing(v.kind).1),
            ),
        },
        (TotpStage::Generate, TotpEvent::Generated(g)) => match g {
            GenerateOutcome::SecretFailed => (done, reject(Some(AuthCounter::DbErrors), 500, "2FA setup failed"@)),
            GenerateOutcome::QrFailed => (done, reject(Some(AuthCounter::DbErrors), 500, "2FA QR generation failed"@)),
            GenerateOutcome::Generated => (done, plain(Some(AuthCounter::TotpSetupSuccess), NextView::Succeed)),
        },
        (TotpStage::NewTotp, TotpEvent::NewTotp(c)) => match c {
            NewTotpCheck::InvalidSecret => (done, reject(Some(AuthCounter::ValidationErrors), 400, "Invalid TOTP secret"@)),
            NewTotpCheck::Rejected => (done, reject(Some(AuthCounter::AuthFailures), 400, "Invalid code"@)),
            NewTotpCheck::Accepted => (TotpView { stage: TotpStage::Store, ..v }, plain(None, NextView::StoreTotp)),
        },
        (TotpStage::Store, TotpEvent::Stored(o)) => match o {
            StoreOutcome::EncryptFailed => (done, reject(Some(AuthCounter::DbErrors), 500, "2FA secret encryption failed"@)),
            StoreOutcome::DbFailed => (done, reject(Some(AuthCounter::DbErrors), 500, "DB error"@)),
            StoreOutcome::Stored => (TotpView { stage: TotpStage::Refetch, ..v }, plain(None, NextView::RefetchUser(v.email))),
        },
        (TotpStage::Refetch, TotpEvent::Refetched(r)) => match r {
            Ok(true) => (TotpView { stage: TotpStage::Session, ..v }, plain(None, NextView::CreateSession(v.user_id->0))),
            Ok(false) => (done, reject(None, 500, "User missing after 2FA update"@)),
            Err(_) => (done, reject(Some(AuthCounter::DbErrors), 500, "DB error"@)),
        },
        (TotpStage::Session, TotpEvent::Session(ok)) => if ok {
            (
                done,
                ActionView {
                    audit: Some((SecurityEventType::TotpEnabled, None, None)),
                    ..plain(Some(AuthCounter::TotpEnableSuccess), NextView::Succeed)
                },
            )
        } else {
            (done, reject(Some(AuthCounter::DbErrors), 500, "Session creation failed"@))
        },
        _ => (v, reject(None, 500, "Unexpected 2FA step"@)),
    }
}

impl TotpView {
    /// Once the account is known, its id is kept.
    pub open spec fn wf(self) -> bool {
        (self.stage == TotpStage::Password || self.stage == TotpStage::ExistingTotp || self.stage
            == TotpStage::Generate || self.stage == TotpStage::NewTotp || self.stage == TotpStage::Store
            || self.stage == TotpStage::Refetch || self.stage == TotpStage::Session) ==> self.user_id is Some
    }
}

/// The state a TOTP request starts from once it passed its checks.
pub open spec fn totp_start(kind: TotpKind, email: Seq<char>, secret: Seq<char>, current_code: Option<Seq<char>>) -> TotpView {
    TotpView {
        kind,
        stage: TotpStage::User,
        email: ascii_lower(trim_ws(email)),
        secret: secret.filter(|c: char| !crate::text::is_ws(c)),
        current_code,
        user_id: None,
    }
}

impl TotpFlow {
    /// Starts a TOTP setup from `ip`: counts the attempt, applies the
    /// sign-in rate limit (key `totp_setup:<ip>`), checks the request and
    /// asks for the account.
    pub fn start_setup(
        request: &LoginRequest,
        ip: &str,
        limiter: &mut FixedWindowRateLimiter,
        metrics: &mut AuthMetrics,
        now_mono: u64,
    ) -> (r: (TotpFlow, AuthAction))
        requires
            old(limiter).wf(),
        ensures
            final(limiter).wf(),
            final(metrics)@ == bumped(old(metrics)@, AuthCounter::TotpSetupAttempts),
            r.0@.wf(),
            ({
                let (lim, allowed) = old(limiter)@.allow_outcome(
                    "totp_setup"@ + seq![':'] + ip@,
                    now_mono,
                );
                let email = ascii_lower(trim_ws(request.email@));
                let ok = valid_email(email) && 0 < byte_len(request.password@) <= 128;
                &&& final(limiter)@ == lim
                &&& !allowed ==> r.0@.stage == TotpStage::Finished && r.1@ == reject(
                    Some(AuthCounter::RateLimited),
                    429,
                    "Too many requests"@,
                )
                &&& (allowed && !ok) ==> r.0@.stage == TotpStage::Finished && r.1@ == reject(
                    Some(AuthCounter::ValidationErrors),
                    400,
                    "Invalid 2FA setup payload"@,
                )
                &&& (allowed && ok) ==> r.0@ == totp_start(
                    TotpKind::Setup,
                    request.email@,
                    Seq::empty(),
                    ov(request.totp_code),
                ) && r.1@ == plain(None, NextView::LookupUser(email))
            }),
    {
        metrics.increment(AuthCounter::TotpSetupAttempts);
        let refused = rate_limited_start("totp_setup", ip, limiter, now_mono);
        let email = crate::auth::normalize_email(request.email.as_str());
        let code = match &request.totp_code {
            Some(c) => Some(c.clone()),
            None => None,
        };
        let mut flow = TotpFlow {
            kind: TotpKind::Setup,
            stage: TotpStage::Finished,
            email,
            secret: String::new(),
            current_code: code,
            user_id: None,
        };
        proof {
            assert(Seq::<char>::empty().filter(|c: char| !crate::text::is_ws(c)) =~= Seq::<char>::empty()) by {
                reveal(Seq::filter);
            }
        }
        if let Some(a) = refused {
            return (flow, a);
        }
        if !crate::security::is_valid_email(flow.email.as_str())
            || !crate::auth::is_reasonable_password_input(request.password.as_str()) {
            return (flow, reply(Some(AuthCounter::ValidationErrors), 400, "Invalid 2FA setup payload"));
        }
        flow.stage = TotpStage::User;
        let lookup = AuthNext::LookupUser(flow.email.clone());
        (flow, act(None, lookup))
    }

    /// Starts a TOTP activation from `ip`: counts the attempt, applies the
    /// sign-in rate limit (key `totp_enable:<ip>`), checks the request and
    /// asks for the account.
    pub fn start_enable(
        request: &EnableTotpRequest,
        ip: &str,
        limiter: &mut FixedWindowRateLimiter,
        metrics: &mut AuthMetrics,
        now_mono: u64,
    ) -> (r: (TotpFlow, AuthAction))
        requires
            old(limiter).wf(),
        ensures
            final(limiter).wf(),
            final(metrics)@ == bumped(old(metrics)@, AuthCounter::TotpEnableAttempts),
            r.0@.wf(),
            ({
                let (lim, allowed) = old(limiter)@.allow_outcome(
                    "totp_enable"@ + seq![':'] + ip@,
                    now_mono,
                );
                let email = ascii_lower(trim_ws(request.email@));
                let ok = valid_email(email) && 0 < byte_len(request.password@) <= 128
                    && valid_totp_code(request.code@);
                &&& final(limiter)@ == lim
                &&& !allowed ==> r.0@.stage == TotpStage::Finished && r.1@ == reject(
                    Some(AuthCounter::RateLimited),
                    429,
                    "Too many requests"@,
                )
                &&& (allowed && !ok) ==> r.0@.stage == TotpStage::Finished && r.1@ == reject(
                    Some(AuthCounter::ValidationErrors),
                    400,
                    "Invalid 2FA enable payload"@,
                )
                &&& (allowed && ok) ==> r.0@ == totp_start(
                    TotpKind::Enable,
                    request.email@,
                    request.secret@,
                    ov(request.existing_totp_code),
                ) && r.1@ == plain(None, NextView::LookupUser(email))
            }),
    {
        metrics.increment(AuthCounter::TotpEnableAttempts);
        let refused = rate_limited_start("totp_enable", ip, limiter, now_mono);
        let email = crate::auth::normalize_email(request.email.as_str());
        let secret = crate::auth::normalize_totp_secret(request.secret.as_str());
        let code = match &request.existing_totp_code {
            Some(c) => Some(c.clone()),
            None => None,
        };
        let mut flow = TotpFlow {
            kind: TotpKind::Enable,
            stage: TotpStage::Finished,
            email,
            secret,
            current_code: code,
            user_id: None,
        };
        if let Some(a) = refused {
            return (flow, a);
        }
        if !crate::security::is_valid_email(flow.email.as_str())
            || !crate::auth::is_reasonable_password_input(request.password.as_str())
            || !crate::security::is_valid_totp_code(request.code.as_str()) {
            return (flow, reply(Some(AuthCounter::ValidationErrors), 400, "Invalid 2FA enable payload"));
        }
        flow.stage = TotpStage::User;
        let lookup = AuthNext::LookupUser(flow.email.clone());
        (flow, act(None, lookup))
    }

    fn settled(&mut self) -> (a: AuthAction)
        ensures
            final(self)@ == (TotpView { stage: after_existing(old(self)@.kind).0, ..old(self)@ }),
            a@ == plain(None, after_existing(old(self)@.kind).1),
    {
        match self.kind {
            TotpKind::Setup => {
                self.stage = TotpStage::Generate;
                act(None, AuthNext::GenerateTotp)
            },
            TotpKind::Enable => {
                self.stage = TotpStage::NewTotp;
                act(None, AuthNext::CheckNewTotp)
            },
        }
    }

    /// The next step once `event` came back.
    pub fn step(&mut self, event: TotpEvent) -> (a: AuthAction)
        requires
            old(self)@.wf(),
        ensures
            (final(self)@, a@) == totp_step(old(self)@, event),
            final(self)@.wf(),
    {
        match (self.stage, event) {
            (TotpStage::User, TotpEvent::User(r)) => match r {
                Ok(Some(acct)) => {
                    self.stage = if acct.has_totp {
                        TotpStage::ExistingTotp
                    } else {
                        TotpStage::Password
                    };
                    self.user_id = Some(acct.id);
                    act(None, AuthNext::VerifyPassword)
                },
                _ => {
                    self.stage = TotpStage::Finished;
                    reply(Some(AuthCounter::AuthFailures), 401, "Auth failed")
                },
            },
            (TotpStage::Password, TotpEvent::Password(p)) | (TotpStage::ExistingTotp, TotpEvent::Password(p)) => match p {
                PasswordCheck::BadStoredHash => {
                    self.stage = TotpStage::Finished;
                    reply(None, 500, "Invalid stored hash")
                },
                PasswordCheck::Mismatch => {
                    self.stage = TotpStage::Finished;
                    reply(Some(AuthCounter::AuthFailures), 401, "Auth failed")
                },
                PasswordCheck::Match => {
                    if self.stage == TotpStage::Password {
                        self.settled()
                    } else {
                        let code = match &self.current_code {
                            Some(c) => {
                                if c.as_str().is_empty() {
                                    None
                                } else {
                                    Some(c.clone())
                                }
                            },
                            None => None,
                        };
                        match code {
                            None => {
                                self.stage = TotpStage::Finished;
                                match self.kind {
                                    TotpKind::Setup => reply(
                                        Some(AuthCounter::AuthFailures),
                                        401,
                                        "Current 2FA code required to change 2FA settings",
                                    ),
                                    TotpKind::Enable => reply(
                                        Some(AuthCounter::AuthFailures),
                                        401,
                                        "Current 2FA code required to replace 2FA settings",
                                    ),
                                }
                            },
                            Some(c) => {
                                if !crate::security::is_valid_totp_code(c.as_str()) {
                                    self.stage = TotpStage::Finished;
                                    match self.kind {
                                        TotpKind::Setup => reply(
                                            Some(AuthCounter::ValidationErrors),
                                            400,
                                            "Invalid 2FA code format",
                                        ),
                                        TotpKind::Enable => reply(
                                            Some(AuthCounter::ValidationErrors),
                                            400,
                                            "Invalid existing 2FA code format",
                                        ),
                                    }
                                } else {
                                    act(None, AuthNext::VerifyTotp(c))
                                }
                            },
                        }
                    }
                },
            },
            (TotpStage::ExistingTotp, TotpEvent::ExistingTotp(t)) => match t {
                TotpCheck::SecretUnavailable | TotpCheck::GeneratorUnavailable => {
                    self.stage = TotpStage::Finished;
                    reply(None, 500, "2FA verification unavailable")
                },
                TotpCheck::Rejected => {
                    self.stage = TotpStage::Finished;
                    match self.kind {
                        TotpKind::Setup => reply(Some(AuthCounter::AuthFailures), 401, "Invalid current 2FA code"),
                        TotpKind::Enable => reply(Some(AuthCounter::AuthFailures), 401, "Invalid existing 2FA code"),
                    }
                },
                TotpCheck::Accepted => self.settled(),
            },
            (TotpStage::Generate, TotpEvent::Generated(g)) => {
                self.stage = TotpStage::Finished;
                match g {
                    GenerateOutcome::SecretFailed => reply(Some(AuthCounter::DbErrors), 500, "2FA setup failed"),
                    GenerateOutcome::QrFailed => reply(Some(AuthCounter::DbErrors), 500, "2FA QR generation failed"),
                    GenerateOutcome::Generated => act(Some(AuthCounter::TotpSetupSuccess), AuthNext::Succeed),
                }
            },
            (TotpStage::NewTotp, TotpEvent::NewTotp(c)) => match c {
                NewTotpCheck::InvalidSecret => {
                    self.stage = TotpStage::Finished;
                    reply(Some(AuthCounter::ValidationErrors), 400, "Invalid TOTP secret")
                },
                NewTotpCheck::Rejected => {
                    self.stage = TotpStage::Finished;
                    reply(Some(AuthCounter::AuthFailures), 400, "Invalid code")
                },
                NewTotpCheck::Accepted => {
                    self.stage = TotpStage::Store;
                    act(None, AuthNext::StoreTotp)
                },
            },
            (TotpStage::Store, TotpEvent::Stored(o)) => match o {
                StoreOutcome::EncryptFailed => {
                    self.stage = TotpStage::Finished;
                    reply(Some(AuthCounter::DbErrors), 500, "2FA secret encryption failed")
                },
                StoreOutcome::DbFailed => {
                    self.stage = TotpStage::Finished;
                    reply(Some(AuthCounter::DbErrors), 500, "DB error")
                },
                StoreOutcome::Stored => {
                    self.stage = TotpStage::Refetch;
                    act(None, AuthNext::RefetchUser(self.email.clone()))
                },
            },
            (TotpStage::Refetch, TotpEvent::Refetched(r)) => match r {
                Ok(true) => {
                    self.stage = TotpStage::Session;
                    let id = match &self.user_id {
                        Some(u) => u.clone(),
                        None => String::new(),
                    };
                    act(None, AuthNext::CreateSession(id))
                },
                Ok(false) => {
                    self.stage = TotpStage::Finished;
                    reply(None, 500, "User missing after 2FA update")
                },
                Err(_) => {
                    self.stage = TotpStage::Finished;
                    reply(Some(AuthCounter::DbErrors), 500, "DB error")
                },
            },
            (TotpStage::Session, TotpEvent::Session(ok)) => {
                self.stage = TotpStage::Finished;
                if ok {
                    let mut a = act(Some(AuthCounter::TotpEnableSuccess), AuthNext::Succeed);
                    a.audit = Some(
                        AuditNote { event: SecurityEventType::TotpEnabled, reason: None, context: None },
                    );
                    a
                } else {
                    reply(Some(AuthCounter::DbErrors), 500, "Session creation failed")
                }
            },
            _ => reply(None, 500, "Unexpected 2FA step"),
        }
    }
}

/// An account with TOTP on cannot get a new secret generated or stored
/// without its current code being accepted: from the password check, such an
/// account goes on only to that code's check.
pub proof fn law_totp_change_needs_current_code(v: TotpView, e: TotpEvent)
    requires
        v.stage == TotpStage::ExistingTotp,
    ensures
        (totp_step(v, e).0.stage == TotpStage::Generate || totp_step(v, e).0.stage
            == TotpStage::NewTotp) ==> (e matches TotpEvent::ExistingTotp(t) && t == TotpCheck::Accepted),
        totp_step(v, e).1.next matches NextView::VerifyTotp(c) ==> v.current_code == Some(c),
{
}

/// A refused account creation is answered 409 "Account already exists"
/// exactly when the database message, in lower case, names a unique
/// constraint on the e-mail address or on the user name; any other refusal
/// is answered 500 "Database error".
pub proof fn law_duplicate_account_conflict(
    user_id: Option<Seq<char>>,
    email: Seq<char>,
    err: String,
)
    ensures
        ({
            let lower = ascii_lower(err@);
            let dup = contains_sub(lower, "unique"@) && (contains_sub(lower, "users.username"@)
                || contains_sub(lower, "users.email"@));
            let out = register_step(
                RegisterStage::CreateUser,
                user_id,
                email,
                RegisterEvent::CreateUser(CreateUserOutcome::Failed(err)),
            );
            &&& out.0 == RegisterStage::Finished
            &&& dup ==> out.2.next == NextView::Reply(409, "Account already exists"@)
                && out.2.counter == Some(AuthCounter::AuthFailures)
            &&& !dup ==> out.2.next == NextView::Reply(500, "Database error"@)
                && out.2.counter == Some(AuthCounter::DbErrors)
        }),
{
}

} // verus!
