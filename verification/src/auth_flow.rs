//! The decisions of the account endpoints (sign-in, registration, TOTP setup
//! and activation, sign-out) as state machines. Each step takes the outcome
//! of the last piece of outside work (a database query, a password or TOTP
//! check) and says what to do next: which counter to bump, which failure
//! records to write or clear, what to audit, and the next request or the
//! final answer. Running the queries and checks is the caller's.

use vstd::prelude::*;
use crate::audit::{FailureReason, SecurityEventType};
use crate::auth::{AuthCounter, AuthMetrics, bumped, normalize_email};
use crate::rate_limit::FixedWindowRateLimiter;
use crate::text::{append_str, to_owned_string};
use crate::security::{valid_email, byte_len};

verus! {

/// Failed sign-ins after which an account or address is locked out.
pub const MAX_LOGIN_ATTEMPTS: i64 = 5;

/// How long a lockout lasts after the last failure, in nanoseconds (15 min).
pub const LOCKOUT_NS: i128 = 900_000_000_000;

/// What to do after a step.
#[derive(Debug, Clone)]
pub enum AuthNext {
    /// Answer with this status and error message; the request is over.
    Reply { status: u16, message: String },
    /// Read the failure record `(count, time of last failure)` under this key.
    QueryFailures(String),
    /// Look up the account with this e-mail address.
    LookupUser(String),
    /// Ask whether the account with this id is banned.
    CheckBan(String),
    /// Check the request's password against the account's stored hash.
    VerifyPassword,
    /// Check this code against the account's stored TOTP secret.
    VerifyTotp(String),
    /// Create a session for the account with this id.
    CreateSession(String),
    /// Hash the request's password with a fresh salt.
    HashPassword,
    /// Create the account from the normalized request.
    CreateUser,
    /// Generate a new TOTP secret and its QR code.
    GenerateTotp,
    /// Check the request's code against the request's new TOTP secret.
    CheckNewTotp,
    /// Encrypt the new TOTP secret and store it on the account.
    StoreTotp,
    /// Read the account again, with this e-mail address.
    RefetchUser(String),
    /// Revoke the session with this token.
    RevokeSession(String),
    /// Answer with the account and its new session; the request is over.
    Succeed,
}

/// An audit record to write.
#[derive(Debug, Clone)]
pub struct AuditNote {
    pub event: SecurityEventType,
    pub reason: Option<FailureReason>,
    pub context: Option<String>,
}

/// Everything a step asks for.
#[derive(Debug, Clone)]
pub struct AuthAction {
    /// Counter to increase by one.
    pub counter: Option<AuthCounter>,
    /// Failure records to add a failure to.
    pub record_failures: Vec<String>,
    /// Failure records to clear.
    pub reset_failures: Vec<String>,
    /// Audit record to write.
    pub audit: Option<AuditNote>,
    pub next: AuthNext,
}

/// The outcome of checking a password against a stored hash.
#[derive(Debug, Clone, Copy, PartialEq, Eq, Structural)]
pub enum PasswordCheck {
    /// The stored hash cannot be read.
    BadStoredHash,
    Mismatch,
    Match,
}

/// The outcome of checking a TOTP code against the stored secret.
#[derive(Debug, Clone, Copy, PartialEq, Eq, Structural)]
pub enum TotpCheck {
    /// The stored secret cannot be decrypted.
    SecretUnavailable,
    /// The secret does not make a valid TOTP generator.
    GeneratorUnavailable,
    Rejected,
    Accepted,
}

/// The account found for a request: its id and whether TOTP is on.
#[derive(Debug, Clone)]
pub struct AccountInfo {
    pub id: String,
    pub has_totp: bool,
}

/// The view of an optional string.
pub open spec fn ov(s: Option<String>) -> Option<Seq<char>> {
    match s {
        Some(x) => Some(x@),
        None => None,
    }
}

/// Abstract view of [`AuthNext`].
pub ghost enum NextView {
    Reply(u16, Seq<char>),
    QueryFailures(Seq<char>),
    LookupUser(Seq<char>),
    CheckBan(Seq<char>),
    VerifyPassword,
    VerifyTotp(Seq<char>),
    CreateSession(Seq<char>),
    HashPassword,
    CreateUser,
    GenerateTotp,
    CheckNewTotp,
    StoreTotp,
    RefetchUser(Seq<char>),
    RevokeSession(Seq<char>),
    Succeed,
}

/// Abstract view of [`AuthAction`].
pub ghost struct ActionView {
    pub counter: Option<AuthCounter>,
    pub record_failures: Seq<Seq<char>>,
    pub reset_failures: Seq<Seq<char>>,
    pub audit: Option<(SecurityEventType, Option<FailureReason>, Option<Seq<char>>)>,
    pub next: NextView,
}

/// The views of a list of strings.
pub open spec fn views(v: Seq<String>) -> Seq<Seq<char>> {
    v.map_values(|s: String| s@)
}

impl AuthAction {
    pub open spec fn view(&self) -> ActionView {
        ActionView {
            counter: self.counter,
            record_failures: views(self.record_failures@),
            reset_failures: views(self.reset_failures@),
            audit: match self.audit {
                Some(a) => Some((a.event, a.reason, ov(a.context))),
                None => None,
            },
            next: match self.next {
                AuthNext::Reply { status, message } => NextView::Reply(status, message@),
                AuthNext::QueryFailures(k) => NextView::QueryFailures(k@),
                AuthNext::LookupUser(e) => NextView::LookupUser(e@),
                AuthNext::CheckBan(u) => NextView::CheckBan(u@),
                AuthNext::VerifyPassword => NextView::VerifyPassword,
                AuthNext::VerifyTotp(c) => NextView::VerifyTotp(c@),
                AuthNext::CreateSession(u) => NextView::CreateSession(u@),
                AuthNext::HashPassword => NextView::HashPassword,
                AuthNext::CreateUser => NextView::CreateUser,
                AuthNext::GenerateTotp => NextView::GenerateTotp,
                AuthNext::CheckNewTotp => NextView::CheckNewTotp,
                AuthNext::StoreTotp => NextView::StoreTotp,
                AuthNext::RefetchUser(e) => NextView::RefetchUser(e@),
                AuthNext::RevokeSession(t) => NextView::RevokeSession(t@),
                AuthNext::Succeed => NextView::Succeed,
            },
        }
    }
}

/// A step with only a counter (or none) and what comes next.
pub open spec fn plain(counter: Option<AuthCounter>, next: NextView) -> ActionView {
    ActionView {
        counter,
        record_failures: Seq::empty(),
        reset_failures: Seq::empty(),
        audit: None,
        next,
    }
}

/// The final error answer `status`, `message`, bumping `counter`.
pub open spec fn reject(counter: Option<AuthCounter>, status: u16, message: Seq<char>) -> ActionView {
    plain(counter, NextView::Reply(status, message))
}

pub(crate) fn act(counter: Option<AuthCounter>, next: AuthNext) -> (a: AuthAction)
    ensures
        a@ == plain(counter, a@.next),
        a.next == next,
{
    let a = AuthAction {
        counter,
        record_failures: Vec::new(),
        reset_failures: Vec::new(),
        audit: None,
        next,
    };
    proof {
        assert(views(a.record_failures@) =~= Seq::<Seq<char>>::empty());
        assert(views(a.reset_failures@) =~= Seq::<Seq<char>>::empty());
    }
    a
}

pub(crate) fn two_keys(a: String, b: String) -> (v: Vec<String>)
    ensures
        views(v@) == seq![a@, b@],
{
    let ghost (av, bv) = (a@, b@);
    let v = vec![a, b];
    proof {
        assert(v@[0]@ == av);
        assert(v@[1]@ == bv);
        assert(views(v@) =~= seq![av, bv]);
    }
    v
}

pub(crate) fn one_key(a: String) -> (v: Vec<String>)
    ensures
        views(v@) == seq![a@],
{
    let ghost av = a@;
    let v = vec![a];
    proof {
        assert(v@[0]@ == av);
        assert(views(v@) =~= seq![av]);
    }
    v
}

pub(crate) fn reply(counter: Option<AuthCounter>, status: u16, message: &str) -> (a: AuthAction)
    ensures
        a@ == reject(counter, status, message@),
{
    act(counter, AuthNext::Reply { status, message: to_owned_string(message) })
}

/// Whether a failure record `(count, last failure)` locks sign-in at `now`
/// (times in nanoseconds since the Unix epoch).
pub open spec fn locked_out(record: Option<(i64, i128)>, now: i128) -> bool {
    match record {
        Some((count, last)) => count >= MAX_LOGIN_ATTEMPTS && now < last + LOCKOUT_NS,
        None => false,
    }
}

fn is_locked_out(record: Option<(i64, i128)>, now: i128) -> (b: bool)
    requires
        match record {
            Some((_, last)) => last + LOCKOUT_NS <= i128::MAX,
            None => true,
        },
    ensures
        b == locked_out(record, now),
{
    match record {
        Some((count, last)) => count >= MAX_LOGIN_ATTEMPTS && now < last + LOCKOUT_NS,
        None => false,
    }
}

/// Where a sign-in stands.
#[derive(Debug, Clone, Copy, PartialEq, Eq, Structural)]
pub enum LoginStage {
    /// Waiting for the failure record of the e-mail address.
    EmailLockout,
    /// Waiting for the failure record of the client address.
    IpLockout,
    /// Waiting for the account.
    User,
    /// Waiting for the ban check.
    Ban,
    /// Waiting for the password check.
    Password,
    /// Waiting for the TOTP check.
    Totp,
    /// Waiting for the new session.
    Session,
    Finished,
}

/// A sign-in in progress.
pub struct LoginFlow {
    pub stage: LoginStage,
    email: String,
    failure_key: String,
    ip_failure_key: String,
    payload_ok: bool,
    totp_code: Option<String>,
    user_id: Option<String>,
    has_totp: bool,
}

/// Abstract state of a [`LoginFlow`].
pub ghost struct LoginView {
    pub stage: LoginStage,
    pub email: Seq<char>,
    pub failure_key: Seq<char>,
    pub ip_failure_key: Seq<char>,
    pub payload_ok: bool,
    pub totp_code: Option<Seq<char>>,
    pub user_id: Option<Seq<char>>,
    pub has_totp: bool,
}

impl View for LoginFlow {
    type V = LoginView;

    closed spec fn view(&self) -> LoginView {
        LoginView {
            stage: self.stage,
            email: self.email@,
            failure_key: self.failure_key@,
            ip_failure_key: self.ip_failure_key@,
            payload_ok: self.payload_ok,
            totp_code: ov(self.totp_code),
            user_id: ov(self.user_id),
            has_totp: self.has_totp,
        }
    }
}

impl LoginView {
    /// Once the account is known, its id is kept.
    pub open spec fn wf(self) -> bool {
        (self.stage == LoginStage::Ban || self.stage == LoginStage::Password || self.stage
            == LoginStage::Totp || self.stage == LoginStage::Session) ==> self.user_id is Some
    }
}

/// An event of a sign-in: the result of the outside work last asked for.
#[derive(Debug)]
pub enum LoginEvent {
    /// The failure record read, if there is one (`None` too when the read
    /// failed).
    Failures(Option<(i64, i128)>),
    /// The account looked up: `Ok(None)` when there is none, `Err` with the
    /// database's message when the lookup failed.
    User(Result<Option<AccountInfo>, String>),
    /// The ban reason, if the account is banned.
    Ban(Option<String>),
    Password(PasswordCheck),
    Totp(TotpCheck),
    /// Whether the session was created.
    Session(bool),
}

/// The sign-in failure record keys: `email:<email>` and `ip:<ip>`.
pub open spec fn email_key(email: Seq<char>) -> Seq<char> {
    "email:"@ + email
}

/// The failure record key of a client address.
pub open spec fn ip_key(ip: Seq<char>) -> Seq<char> {
    "ip:"@ + ip
}

/// The step of a sign-in in `v` on `event` at `now`: the next state and
/// what to do.
pub open spec fn login_step(v: LoginView, event: LoginEvent, now: i128) -> (LoginView, ActionView) {
    match (v.stage, event) {
        (LoginStage::EmailLockout, LoginEvent::Failures(rec)) => if locked_out(rec, now) {
            (
                LoginView { stage: LoginStage::Finished, ..v },
                reject(
                    Some(AuthCounter::RateLimited),
                    429,
                    "Account locked due to too many failed attempts. Try again later."@,
                ),
            )
        } else {
            (
                LoginView { stage: LoginStage::IpLockout, ..v },
                plain(None, NextView::QueryFailures(v.ip_failure_key)),
            )
        },
        (LoginStage::IpLockout, LoginEvent::Failures(rec)) => if locked_out(rec, now) {
            (
                LoginView { stage: LoginStage::Finished, ..v },
                ActionView {
                    audit: Some(
                        (
                            SecurityEventType::RateLimitExceeded,
                            None,
                            Some(crate::recording::decimal((rec->0).0 as nat) + " failed login attempts"@),
                        ),
                    ),
                    ..reject(
                        Some(AuthCounter::RateLimited),
                        429,
                        "Too many failed attempts from this IP. Try again later."@,
                    )
                },
            )
        } else if !v.payload_ok {
            (
                LoginView { stage: LoginStage::Finished, ..v },
                reject(Some(AuthCounter::ValidationErrors), 400, "Invalid login payload"@),
            )
        } else {
            (
                LoginView { stage: LoginStage::User, ..v },
                plain(None, NextView::LookupUser(v.email)),
            )
        },
        (LoginStage::User, LoginEvent::User(r)) => match r {
            Ok(Some(acct)) => (
                LoginView {
                    stage: LoginStage::Ban,
                    user_id: Some(acct.id@),
                    has_totp: acct.has_totp,
                    ..v
                },
                plain(None, NextView::CheckBan(acct.id@)),
            ),
            Ok(None) => (
                LoginView { stage: LoginStage::Finished, ..v },
                ActionView {
                    record_failures: seq![v.ip_failure_key],
                    audit: Some(
                        (SecurityEventType::LoginFailure, Some(FailureReason::UserNotFound), None),
                    ),
                    ..reject(Some(AuthCounter::AuthFailures), 401, "Invalid credentials"@)
                },
            ),
            Err(e) => (
                LoginView { stage: LoginStage::Finished, ..v },
                ActionView {
                    audit: Some((SecurityEventType::DatabaseError, None, Some(e@))),
                    ..reject(Some(AuthCounter::DbErrors), 500, "Database error"@)
                },
            ),
        },
        (LoginStage::Ban, LoginEvent::Ban(b)) => match b {
            Some(reason) => (
                LoginView { stage: LoginStage::Finished, ..v },
                reject(None, 403, "Account suspended: "@ + reason@),
            ),
            None => (
                LoginView { stage: LoginStage::Password, ..v },
                plain(None, NextView::VerifyPassword),
            ),
        },
        (LoginStage::Password, LoginEvent::Password(p)) => match p {
            PasswordCheck::BadStoredHash => (
                LoginView { stage: LoginStage::Finished, ..v },
                reject(None, 500, "Invalid stored hash"@),
            ),
            PasswordCheck::Mismatch => (
                LoginView { stage: LoginStage::Finished, ..v },
                ActionView {
                    record_failures: seq![v.failure_key, v.ip_failure_key],
                    audit: Some(
                        (SecurityEventType::LoginFailure, Some(FailureReason::InvalidPassword), None),
                    ),
                    ..reject(Some(AuthCounter::AuthFailures), 401, "Invalid credentials"@)
                },
            ),
            PasswordCheck::Match => if !v.has_totp {
                (
                    LoginView { stage: LoginStage::Session, ..v },
                    ActionView {
                        reset_failures: seq![v.failure_key, v.ip_failure_key],
                        ..plain(None, NextView::CreateSession(v.user_id->0))
                    },
                )
            } else {
                match v.totp_code {
                    None => (
                        LoginView { stage: LoginStage::Finished, ..v },
                        ActionView {
                            audit: Some(
                                (
                                    SecurityEventType::LoginFailure,
                                    Some(FailureReason::TotpRequired),
                                    None,
                                ),
                            ),
                            ..reject(Some(AuthCounter::AuthFailures), 401, "2FA required"@)
                        },
                    ),
                    Some(code) => if !crate::security::valid_totp_code(code) {
                        (
                            LoginView { stage: LoginStage::Finished, ..v },
                            ActionView {
                                record_failures: seq![v.failure_key],
                                ..reject(
                                    Some(AuthCounter::ValidationErrors),
                                    401,
                                    "Invalid 2FA code"@,
                                )
                            },
                        )
                    } else {
                        (
                            LoginView { stage: LoginStage::Totp, ..v },
                            plain(None, NextView::VerifyTotp(code)),
                        )
                    },
                }
            },
        },
        (LoginStage::Totp, LoginEvent::Totp(t)) => match t {
            TotpCheck::SecretUnavailable => (
                LoginView { stage: LoginStage::Finished, ..v },
                reject(Some(AuthCounter::DbErrors), 500, "2FA verification unavailable"@),
            ),
            TotpCheck::GeneratorUnavailable => (
                LoginView { stage: LoginStage::Finished, ..v },
                reject(None, 500, "2FA verification unavailable"@),
            ),
            TotpCheck::Rejected => (
                LoginView { stage: LoginStage::Finished, ..v },
                ActionView {
                    record_failures: seq![v.failure_key, v.ip_failure_key],
                    ..reject(Some(AuthCounter::AuthFailures), 401, "Invalid 2FA code"@)
                },
            ),
            TotpCheck::Accepted => (
                LoginView { stage: LoginStage::Session, ..v },
                ActionView {
                    reset_failures: seq![v.failure_key, v.ip_failure_key],
                    ..plain(None, NextView::CreateSession(v.user_id->0))
                },
            ),
        },
        (LoginStage::Session, LoginEvent::Session(ok)) => if ok {
            (
                LoginView { stage: LoginStage::Finished, ..v },
                ActionView {
                    audit: Some((SecurityEventType::LoginSuccess, None, None)),
                    ..plain(Some(AuthCounter::LoginSuccess), NextView::Succeed)
                },
            )
        } else {
            (
                LoginView { stage: LoginStage::Finished, ..v },
                reject(Some(AuthCounter::DbErrors), 500, "Session creation failed"@),
            )
        },
        _ => (v, reject(None, 500, "Unexpected sign-in step"@)),
    }
}

/// The state a sign-in request starts from (before the first step).
pub open spec fn login_start(email: Seq<char>, ip: Seq<char>, password: Seq<char>, totp_code: Option<Seq<char>>) -> LoginView {
    let e = crate::text::ascii_lower(crate::text::trim_ws(email));
    LoginView {
        stage: LoginStage::EmailLockout,
        email: e,
        failure_key: email_key(e),
        ip_failure_key: ip_key(ip),
        payload_ok: valid_email(e) && 0 < byte_len(password) <= 128,
        totp_code,
        user_id: None,
        has_totp: false,
    }
}

pub(crate) fn join_key(prefix: &str, rest: &str) -> (r: String)
    ensures
        r@ == prefix@ + rest@,
{
    let mut r = to_owned_string(prefix);
    append_str(&mut r, rest);
    r
}

impl LoginFlow {
    /// Starts a sign-in from `ip`: counts the attempt, applies the sign-in
    /// rate limit (key `login:<ip>`), and asks for the e-mail address's
    /// failure record.
    pub fn start(
        request: &crate::auth::LoginRequest,
        ip: &str,
        limiter: &mut FixedWindowRateLimiter,
        metrics: &mut AuthMetrics,
        now_mono: u64,
    ) -> (r: (LoginFlow, AuthAction, bool))
        requires
            old(limiter).wf(),
        ensures
            final(limiter).wf(),
            final(metrics)@ == bumped(old(metrics)@, AuthCounter::LoginAttempts),
            ({
                let (lim, allowed) = old(limiter)@.allow_outcome(
                    "login"@ + seq![':'] + ip@,
                    now_mono,
                );
                &&& final(limiter)@ == lim
                &&& r.2 == allowed
                &&& r.0@.wf()
                &&& allowed ==> r.0@ == login_start(
                    request.email@,
                    ip@,
                    request.password@,
                    ov(request.totp_code),
                ) && r.1@ == plain(None, NextView::QueryFailures(r.0@.failure_key))
                &&& !allowed ==> r.0@.stage == LoginStage::Finished && r.1@ == reject(
                    Some(AuthCounter::RateLimited),
                    429,
                    "Too many requests"@,
                )
            }),
    {
        metrics.increment(AuthCounter::LoginAttempts);
        let key = crate::auth::rate_limit_key("login", ip);
        let allowed = limiter.allow(key.as_str(), now_mono);
        let email = normalize_email(request.email.as_str());
        let failure_key = join_key("email:", email.as_str());
        let ip_failure_key = join_key("ip:", ip);
        let payload_ok = crate::security::is_valid_email(email.as_str())
            && crate::auth::is_reasonable_password_input(request.password.as_str());
        let totp_code = match &request.totp_code {
            Some(c) => Some(c.clone()),
            None => None,
        };
        let first = AuthNext::QueryFailures(failure_key.clone());
        let flow = LoginFlow {
            stage: if allowed {
                LoginStage::EmailLockout
            } else {
                LoginStage::Finished
            },
            email,
            failure_key,
            ip_failure_key,
            payload_ok,
            totp_code,
            user_id: None,
            has_totp: false,
        };
        if !allowed {
            return (flow, reply(Some(AuthCounter::RateLimited), 429, "Too many requests"), false);
        }
        (flow, act(None, first), true)
    }

    /// The next step once `event` came back, at `now` (nanoseconds since the
    /// Unix epoch).
    pub fn step(&mut self, event: LoginEvent, now: i128) -> (a: AuthAction)
        requires
            event matches LoginEvent::Failures(Some((_, last))) ==> last + LOCKOUT_NS <= i128::MAX,
            old(self)@.wf(),
        ensures
            (final(self)@, a@) == login_step(old(self)@, event, now),
            final(self)@.wf(),
    {
        match (self.stage, event) {
            (LoginStage::EmailLockout, LoginEvent::Failures(rec)) => {
                if is_locked_out(rec, now) {
                    self.stage = LoginStage::Finished;
                    reply(
                        Some(AuthCounter::RateLimited),
                        429,
                        "Account locked due to too many failed attempts. Try again later.",
                    )
                } else {
                    self.stage = LoginStage::IpLockout;
                    act(None, AuthNext::QueryFailures(self.ip_failure_key.clone()))
                }
            },
            (LoginStage::IpLockout, LoginEvent::Failures(rec)) => {
                if is_locked_out(rec, now) {
                    self.stage = LoginStage::Finished;
                    let count = match rec {
                        Some((c, _)) => c,
                        None => 0,
                    };
                    let mut context = crate::recording::decimal_string(count as u64);
                    append_str(&mut context, " failed login attempts");
                    let mut a = reply(
                        Some(AuthCounter::RateLimited),
                        429,
                        "Too many failed attempts from this IP. Try again later.",
                    );
                    a.audit = Some(
                        AuditNote {
                            event: SecurityEventType::RateLimitExceeded,
                            reason: None,
                            context: Some(context),
                        },
                    );
                    a
                } else if !self.payload_ok {
                    self.stage = LoginStage::Finished;
                    reply(Some(AuthCounter::ValidationErrors), 400, "Invalid login payload")
                } else {
                    self.stage = LoginStage::User;
                    act(None, AuthNext::LookupUser(self.email.clone()))
                }
            },
            (LoginStage::User, LoginEvent::User(r)) => match r {
                Ok(Some(acct)) => {
                    self.stage = LoginStage::Ban;
                    self.has_totp = acct.has_totp;
                    let id = acct.id.clone();
                    self.user_id = Some(acct.id);
                    act(None, AuthNext::CheckBan(id))
                },
                Ok(None) => {
                    self.stage = LoginStage::Finished;
                    let mut a = reply(Some(AuthCounter::AuthFailures), 401, "Invalid credentials");
                    a.record_failures = one_key(self.ip_failure_key.clone());
                    a.audit = Some(
                        AuditNote {
                            event: SecurityEventType::LoginFailure,
                            reason: Some(FailureReason::UserNotFound),
                            context: None,
                        },
                    );
                    a
                },
                Err(e) => {
                    self.stage = LoginStage::Finished;
                    let mut a = reply(Some(AuthCounter::DbErrors), 500, "Database error");
                    a.audit = Some(
                        AuditNote {
                            event: SecurityEventType::DatabaseError,
                            reason: None,
                            context: Some(e),
                        },
                    );
                    a
                },
            },
            (LoginStage::Ban, LoginEvent::Ban(b)) => match b {
                Some(reason) => {
                    self.stage = LoginStage::Finished;
                    let message = join_key("Account suspended: ", reason.as_str());
                    act(None, AuthNext::Reply { status: 403, message })
                },
                None => {
                    self.stage = LoginStage::Password;
                    act(None, AuthNext::VerifyPassword)
                },
            },
            (LoginStage::Password, LoginEvent::Password(p)) => match p {
                PasswordCheck::BadStoredHash => {
                    self.stage = LoginStage::Finished;
                    reply(None, 500, "Invalid stored hash")
                },
                PasswordCheck::Mismatch => {
                    self.stage = LoginStage::Finished;
                    let mut a = reply(Some(AuthCounter::AuthFailures), 401, "Invalid credentials");
                    a.record_failures = two_keys(self.failure_key.clone(), self.ip_failure_key.clone());
                    a.audit = Some(
                        AuditNote {
                            event: SecurityEventType::LoginFailure,
                            reason: Some(FailureReason::InvalidPassword),
                            context: None,
                        },
                    );
                    a
                },
                PasswordCheck::Match => {
                    if !self.has_totp {
                        self.begin_session()
                    } else {
                        match &self.totp_code {
                            None => {
                                self.stage = LoginStage::Finished;
                                let mut a = reply(
                                    Some(AuthCounter::AuthFailures),
                                    401,
                                    "2FA required",
                                );
                                a.audit = Some(
                                    AuditNote {
                                        event: SecurityEventType::LoginFailure,
                                        reason: Some(FailureReason::TotpRequired),
                                        context: None,
                                    },
                                );
                                a
                            },
                            Some(code) => {
                                if !crate::security::is_valid_totp_code(code.as_str()) {
                                    self.stage = LoginStage::Finished;
                                    let mut a = reply(
                                        Some(AuthCounter::ValidationErrors),
                                        401,
                                        "Invalid 2FA code",
                                    );
                                    a.record_failures = one_key(self.failure_key.clone());
                                    a
                                } else {
                                    let c = code.clone();
                                    self.stage = LoginStage::Totp;
                                    act(None, AuthNext::VerifyTotp(c))
                                }
                            },
                        }
                    }
                },
            },
            (LoginStage::Totp, LoginEvent::Totp(t)) => match t {
                TotpCheck::SecretUnavailable => {
                    self.stage = LoginStage::Finished;
                    reply(Some(AuthCounter::DbErrors), 500, "2FA verification unavailable")
                },
                TotpCheck::GeneratorUnavailable => {
                    self.stage = LoginStage::Finished;
                    reply(None, 500, "2FA verification unavailable")
                },
                TotpCheck::Rejected => {
                    self.stage = LoginStage::Finished;
                    let mut a = reply(Some(AuthCounter::AuthFailures), 401, "Invalid 2FA code");
                    a.record_failures = two_keys(self.failure_key.clone(), self.ip_failure_key.clone());
                    a
                },
                TotpCheck::Accepted => self.begin_session(),
            },
            (LoginStage::Session, LoginEvent::Session(ok)) => {
                self.stage = LoginStage::Finished;
                if ok {
                    let mut a = act(Some(AuthCounter::LoginSuccess), AuthNext::Succeed);
                    a.audit = Some(
                        AuditNote {
                            event: SecurityEventType::LoginSuccess,
                            reason: None,
                            context: None,
                        },
                    );
                    a
                } else {
                    reply(Some(AuthCounter::DbErrors), 500, "Session creation failed")
                }
            },
            _ => reply(None, 500, "Unexpected sign-in step"),
        }
    }

    /// Clears both failure records and asks for a session.
    fn begin_session(&mut self) -> (a: AuthAction)
        requires
            old(self)@.user_id is Some,
        ensures
            final(self)@ == (LoginView { stage: LoginStage::Session, ..old(self)@ }),
            a@ == (ActionView {
                reset_failures: seq![old(self)@.failure_key, old(self)@.ip_failure_key],
                ..plain(None, NextView::CreateSession(old(self)@.user_id->0))
            }),
    {
        self.stage = LoginStage::Session;
        let id = match &self.user_id {
            Some(u) => u.clone(),
            None => String::new(),
        };
        let mut a = act(None, AuthNext::CreateSession(id));
        a.reset_failures = two_keys(self.failure_key.clone(), self.ip_failure_key.clone());
        a
    }
}

/// A sign-in step asks for a session only right after the password matched
/// (for an account without TOTP) or the TOTP code was accepted.
pub proof fn law_session_requires_credentials(v: LoginView, e: LoginEvent, now: i128)
    ensures
        login_step(v, e, now).1.next is CreateSession ==> (v.stage == LoginStage::Password && (e
            matches LoginEvent::Password(p) && p == PasswordCheck::Match) && !v.has_totp) || (
        v.stage == LoginStage::Totp && (e matches LoginEvent::Totp(t) && t == TotpCheck::Accepted)),
{
}

/// The TOTP check is reached only from a matching password on an account
/// with TOTP on.
pub proof fn law_totp_after_password(v: LoginView, e: LoginEvent, now: i128)
    ensures
        (login_step(v, e, now).0.stage == LoginStage::Totp && v.stage != LoginStage::Totp) ==> (
        v.stage == LoginStage::Password && (e matches LoginEvent::Password(p) && p
            == PasswordCheck::Match) && v.has_totp),
{
}

/// The session stage is entered only by asking for a session, and a sign-in
/// succeeds only once that session was created.
pub proof fn law_success_after_session(v: LoginView, e: LoginEvent, now: i128)
    ensures
        (login_step(v, e, now).0.stage == LoginStage::Session && v.stage != LoginStage::Session)
            ==> login_step(v, e, now).1.next is CreateSession,
        login_step(v, e, now).1.next is Succeed ==> v.stage == LoginStage::Session && (e matches LoginEvent::Session(ok) && ok),
{
}

/// A locked-out e-mail address or client address ends the sign-in with 429
/// before the account is even looked up.
pub proof fn law_lockout_refuses(v: LoginView, rec: Option<(i64, i128)>, now: i128)
    requires
        v.stage == LoginStage::EmailLockout || v.stage == LoginStage::IpLockout,
        locked_out(rec, now),
    ensures
        login_step(v, LoginEvent::Failures(rec), now).0.stage == LoginStage::Finished,
        login_step(v, LoginEvent::Failures(rec), now).1.next matches NextView::Reply(status, _) && status == 429,
{
}

/// A correct second factor signs in: at the TOTP stage of a known account,
/// an accepted code asks for that account's session and clears the failure
/// records, while only a rejected code answers 401 "Invalid 2FA code" and
/// records failures for the e-mail address and the client address.
pub proof fn law_accepted_code_signs_in(v: LoginView, t: TotpCheck, now: i128)
    requires
        v.stage == LoginStage::Totp,
        v.user_id is Some,
    ensures
        t == TotpCheck::Accepted ==> {
            &&& login_step(v, LoginEvent::Totp(t), now).0.stage == LoginStage::Session
            &&& login_step(v, LoginEvent::Totp(t), now).1.next == NextView::CreateSession(v.user_id->0)
            &&& login_step(v, LoginEvent::Totp(t), now).1.reset_failures == seq![v.failure_key, v.ip_failure_key]
            &&& login_step(v, LoginEvent::Totp(t), now).1.record_failures.len() == 0
        },
        t == TotpCheck::Rejected ==> {
            &&& login_step(v, LoginEvent::Totp(t), now).0.stage == LoginStage::Finished
            &&& login_step(v, LoginEvent::Totp(t), now).1.next == NextView::Reply(401, "Invalid 2FA code"@)
            &&& login_step(v, LoginEvent::Totp(t), now).1.record_failures == seq![v.failure_key, v.ip_failure_key]
        },
        (login_step(v, LoginEvent::Totp(t), now).1.next == NextView::Reply(401, "Invalid 2FA code"@))
            ==> t == TotpCheck::Rejected,
{
}

/// A matching password on an account without TOTP asks for that account's
/// session and clears the failure records.
pub proof fn law_password_signs_in(v: LoginView, now: i128)
    requires
        v.stage == LoginStage::Password,
        v.user_id is Some,
        !v.has_totp,
    ensures
        login_step(v, LoginEvent::Password(PasswordCheck::Match), now).0.stage == LoginStage::Session,
        login_step(v, LoginEvent::Password(PasswordCheck::Match), now).1.next == NextView::CreateSession(v.user_id->0),
        login_step(v, LoginEvent::Password(PasswordCheck::Match), now).1.reset_failures == seq![v.failure_key, v.ip_failure_key],
{
}

} // verus!
