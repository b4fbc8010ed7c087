//! Relay lease checks: the claims of a signed lease are checked against the
//! session, the relay, the signing key and the clock before a peer may join.

use crate::relay_session::{PeerRole, SessionError};
use crate::gateway_relay::LeaseRejectReason;
use crate::text::{all_ws, str_equal, trims_to_empty};
use vstd::prelude::*;

verus! {

/// Maximum clock skew tolerated between master and relay, in seconds.
pub const MAX_CLOCK_SKEW_SECS: i64 = 30;

/// Furthest a lease may expire into the future, in seconds.
pub const MAX_LEASE_HORIZON_SECS: i64 = 3600;

/// Errors of relay packet handling.
#[derive(Debug, Clone, Copy, PartialEq, Eq, Structural)]
pub enum PacketError {
    InvalidSize,
    InvalidMagic,
    RateLimited,
    InvalidHeader,
    InvalidPayload,
    InvalidSessionId,
    ExpiredLease,
    InvalidRole,
    WrongRelay,
    KeyIdMismatch,
    UnexpectedType,
    InvalidSignature,
    SessionNotFound,
    SessionNotActive,
    SessionFull,
    UnknownPeer,
    ReplayDetected(u64),
    Overloaded,
    SessionError,
}

/// The claims carried by a relay lease.
#[derive(Debug, Clone)]
pub struct LeaseClaims {
    pub wavry_id: String,
    pub session_id: u128,
    pub role: String,
    pub relay_id: Option<String>,
    pub key_id: Option<String>,
    pub issued_at: Option<String>,
    pub not_before: Option<String>,
    pub expiration: String,
    pub soft_limit_kbps: Option<u32>,
    pub hard_limit_kbps: Option<u32>,
}

/// A lease that passed every check.
#[derive(Debug)]
pub struct ValidatedLease {
    pub wavry_id: String,
    pub peer_role: PeerRole,
}

/// An instant as seconds since the Unix epoch and nanoseconds within the second.
pub type Instant = (i64, u32);

/// The instant an RFC 3339 timestamp denotes, or `None` when `text` is not one.
pub uninterp spec fn rfc3339_instant(text: Seq<char>) -> Option<(i64, u32)>;

/// Parses an RFC 3339 timestamp with chrono's `DateTime::parse_from_rfc3339`,
/// read back with `timestamp` and `timestamp_subsec_nanos`.
///
/// Trusted: the result is the named function [`rfc3339_instant`] of the text;
/// nothing more is claimed of the parser.
#[verifier::external_body]
fn parse_rfc3339(value: &str) -> (r: Option<(i64, u32)>)
    ensures
        r == rfc3339_instant(value@),
{
    match chrono::DateTime::parse_from_rfc3339(value) {
        Ok(dt) => Some((dt.timestamp(), dt.timestamp_subsec_nanos())),
        Err(_) => None,
    }
}

/// The current time by chrono's `Utc::now`, as seconds and nanoseconds.
///
/// Trusted: only that the nanoseconds are below one second is claimed; the
/// value itself is the clock's. chrono's `Utc::now` panics when the system
/// clock reads before the Unix epoch.
#[verifier::external_body]
fn utc_now() -> (r: (i64, u32))
    ensures
        r.1 < 1_000_000_000,
{
    let now = chrono::Utc::now();
    (now.timestamp(), now.timestamp_subsec_nanos())
}

/// Instants ordered as chrono orders them: by seconds, then nanoseconds.
pub open spec fn before_or_at(a: (int, int), b: (int, int)) -> bool {
    a.0 < b.0 || (a.0 == b.0 && a.1 <= b.1)
}

pub open spec fn as_pair(t: (i64, u32)) -> (int, int) {
    (t.0 as int, t.1 as int)
}

/// `t` shifted by `secs` seconds.
pub open spec fn shifted(t: (i64, u32), secs: int) -> (int, int) {
    (t.0 + secs, t.1 as int)
}

/// The role a lease's role claim names.
pub open spec fn role_of(role: Seq<char>) -> Option<PeerRole> {
    if role == "client"@ {
        Some(PeerRole::Client)
    } else if role == "server"@ {
        Some(PeerRole::Server)
    } else {
        None
    }
}

pub open spec fn opt_view(o: Option<String>) -> Option<Seq<char>> {
    match o {
        Some(s) => Some(s@),
        None => None,
    }
}

/// The outcome of the time checks at `now`.
pub open spec fn time_check(claims: LeaseClaims, now: (i64, u32)) -> Result<(), PacketError> {
    match rfc3339_instant(claims.expiration@) {
        None => Err(PacketError::InvalidPayload),
        Some(exp) => if before_or_at(as_pair(exp), shifted(now, -MAX_CLOCK_SKEW_SECS)) {
            Err(PacketError::ExpiredLease)
        } else if !before_or_at(as_pair(exp), shifted(now, MAX_LEASE_HORIZON_SECS as int)) {
            Err(PacketError::InvalidPayload)
        } else {
            let nbf_ok = match claims.not_before {
                None => Ok(()),
                Some(nbf_raw) => match rfc3339_instant(nbf_raw@) {
                    None => Err(PacketError::InvalidPayload),
                    Some(nbf) => if !before_or_at(
                        as_pair(nbf),
                        shifted(now, MAX_CLOCK_SKEW_SECS as int),
                    ) {
                        Err(PacketError::InvalidPayload)
                    } else {
                        Ok(())
                    },
                },
            };
            match nbf_ok {
                Err(e) => Err(e),
                Ok(()) => match claims.issued_at {
                    None => Ok(()),
                    Some(iat_raw) => match rfc3339_instant(iat_raw@) {
                        None => Err(PacketError::InvalidPayload),
                        Some(iat) => if !before_or_at(
                            as_pair(iat),
                            shifted(now, MAX_CLOCK_SKEW_SECS as int),
                        ) {
                            Err(PacketError::InvalidPayload)
                        } else if before_or_at(as_pair(exp), as_pair(iat)) {
                            Err(PacketError::InvalidPayload)
                        } else {
                            Ok(())
                        },
                    },
                },
            }
        },
    }
}

/// The outcome of checking `claims` at `now`: `Ok` carries the role, or
/// the first failed check's error, in the order the checks are made.
pub open spec fn lease_outcome(
    claims: LeaseClaims,
    expected_session_id: u128,
    expected_relay_id: Seq<char>,
    expected_key_id: Option<Seq<char>>,
    requested_role: PeerRole,
    now: (i64, u32),
) -> Result<PeerRole, PacketError> {
    if claims.session_id == 0 {
        Err(PacketError::InvalidSessionId)
    } else if claims.session_id != expected_session_id {
        Err(PacketError::InvalidPayload)
    } else if all_ws(claims.wavry_id@) {
        Err(PacketError::InvalidPayload)
    } else if role_of(claims.role@) is None {
        Err(PacketError::InvalidRole)
    } else if role_of(claims.role@)->0 != requested_role {
        Err(PacketError::InvalidRole)
    } else if opt_view(claims.relay_id) != Some(expected_relay_id) {
        Err(PacketError::WrongRelay)
    } else if expected_key_id is Some && opt_view(claims.key_id) != expected_key_id {
        Err(PacketError::KeyIdMismatch)
    } else {
        match time_check(claims, now) {
            Err(e) => Err(e),
            Ok(()) => Ok(role_of(claims.role@)->0),
        }
    }
}

pub open spec fn key_view(k: Option<&str>) -> Option<Seq<char>> {
    match k {
        Some(k) => Some(k@),
        None => None,
    }
}

/// Whether `r` is the outcome [`lease_outcome`] gives at `now`: the
/// validated lease carries the claims' id and the role, or the error is the same.
pub open spec fn lease_result_agrees(
    r: Result<ValidatedLease, PacketError>,
    claims: LeaseClaims,
    expected_session_id: u128,
    expected_relay_id: Seq<char>,
    expected_key_id: Option<Seq<char>>,
    requested_role: PeerRole,
    now: (i64, u32),
) -> bool {
    match (r, lease_outcome(claims, expected_session_id, expected_relay_id, expected_key_id, requested_role, now)) {
        (Ok(v), Ok(role)) => v.wavry_id@ == claims.wavry_id@ && v.peer_role == role,
        (Err(e1), Err(e2)) => e1 == e2,
        _ => false,
    }
}

/// Whether `a` is at or before `b`, as chrono compares instants.
fn instant_le(a: (i64, u32), b_secs: i128, b_nanos: u32) -> (r: bool)
    ensures
        r == before_or_at(as_pair(a), (b_secs as int, b_nanos as int)),
{
    (a.0 as i128) < b_secs || ((a.0 as i128) == b_secs && a.1 <= b_nanos)
}

/// Check lease claims at instant `now`.
pub fn validate_lease_claims_at(
    claims: &LeaseClaims,
    expected_session_id: u128,
    expected_relay_id: &str,
    expected_key_id: Option<&str>,
    requested_role: PeerRole,
    now: (i64, u32),
) -> (r: Result<ValidatedLease, PacketError>)
    ensures
        lease_result_agrees(r, *claims, expected_session_id, expected_relay_id@, key_view(expected_key_id), requested_role, now),
{
    if claims.session_id == 0 {
        return Err(PacketError::InvalidSessionId);
    }
    if claims.session_id != expected_session_id {
        return Err(PacketError::InvalidPayload);
    }
    if trims_to_empty(claims.wavry_id.as_str()) {
        return Err(PacketError::InvalidPayload);
    }
    proof {
        reveal_strlit("client");
        reveal_strlit("server");
    }
    let lease_role = if str_equal(claims.role.as_str(), "client") {
        PeerRole::Client
    } else if str_equal(claims.role.as_str(), "server") {
        PeerRole::Server
    } else {
        return Err(PacketError::InvalidRole);
    };
    if lease_role != requested_role {
        return Err(PacketError::InvalidRole);
    }
    match &claims.relay_id {
        Some(relay_id) => {
            if !str_equal(relay_id.as_str(), expected_relay_id) {
                return Err(PacketError::WrongRelay);
            }
        },
        None => {
            return Err(PacketError::WrongRelay);
        },
    }
    if let Some(expected_kid) = expected_key_id {
        let matches = match &claims.key_id {
            Some(kid) => str_equal(kid.as_str(), expected_kid),
            None => false,
        };
        if !matches {
            return Err(PacketError::KeyIdMismatch);
        }
    }
    let exp = match parse_rfc3339(claims.expiration.as_str()) {
        Some(t) => t,
        None => return Err(PacketError::InvalidPayload),
    };
    let now_secs = now.0 as i128;
    if instant_le(exp, now_secs - MAX_CLOCK_SKEW_SECS as i128, now.1) {
        return Err(PacketError::ExpiredLease);
    }
    if !instant_le(exp, now_secs + MAX_LEASE_HORIZON_SECS as i128, now.1) {
        return Err(PacketError::InvalidPayload);
    }
    if let Some(nbf_raw) = &claims.not_before {
        let nbf = match parse_rfc3339(nbf_raw.as_str()) {
            Some(t) => t,
            None => return Err(PacketError::InvalidPayload),
        };
        if !instant_le(nbf, now_secs + MAX_CLOCK_SKEW_SECS as i128, now.1) {
            return Err(PacketError::InvalidPayload);
        }
    }
    if let Some(iat_raw) = &claims.issued_at {
        let iat = match parse_rfc3339(iat_raw.as_str()) {
            Some(t) => t,
            None => return Err(PacketError::InvalidPayload),
        };
        if !instant_le(iat, now_secs + MAX_CLOCK_SKEW_SECS as i128, now.1) {
            return Err(PacketError::InvalidPayload);
        }
        if instant_le(exp, iat.0 as i128, iat.1) {
            return Err(PacketError::InvalidPayload);
        }
    }
    Ok(ValidatedLease { wavry_id: claims.wavry_id.clone(), peer_role: lease_role })
}

/// Check lease claims against the current time.
pub fn validate_lease_claims(
    claims: &LeaseClaims,
    expected_session_id: u128,
    expected_relay_id: &str,
    expected_key_id: Option<&str>,
    requested_role: PeerRole,
) -> (r: Result<ValidatedLease, PacketError>)
    ensures
        exists|now: (i64, u32)|
            #[trigger] lease_result_agrees(r, *claims, expected_session_id, expected_relay_id@, key_view(expected_key_id), requested_role, now),
{
    let now = utc_now();
    validate_lease_claims_at(
        claims,
        expected_session_id,
        expected_relay_id,
        expected_key_id,
        requested_role,
        now,
    )
}

/// The largest lease token the relay reads, in bytes.
pub const MAX_LEASE_TOKEN_BYTES: usize = 8192;

/// Whether a presented lease token of `len` bytes is read at all: it is
/// refused as an invalid signature when empty or longer than
/// [`MAX_LEASE_TOKEN_BYTES`].
pub fn lease_token_len_ok(len: usize) -> (b: bool)
    ensures
        b == (0 < len && len <= MAX_LEASE_TOKEN_BYTES),
{
    0 < len && len <= MAX_LEASE_TOKEN_BYTES
}

/// How the relay answers a lease whose claims were refused with `e`: the
/// rejection it sends the peer, if any, and the error it records. An
/// expired lease and a lease for another relay are reported as such; a
/// wrong role or key id as an invalid signature; other errors are recorded
/// without a rejection.
pub fn claims_rejection(e: PacketError) -> (r: (Option<LeaseRejectReason>, PacketError))
    ensures
        r == (match e {
            PacketError::ExpiredLease => (Some(LeaseRejectReason::Expired), PacketError::ExpiredLease),
            PacketError::WrongRelay => (Some(LeaseRejectReason::WrongRelay), PacketError::WrongRelay),
            PacketError::InvalidRole | PacketError::KeyIdMismatch => (
                Some(LeaseRejectReason::InvalidSignature),
                PacketError::InvalidSignature,
            ),
            other => (None, other),
        }),
{
    match e {
        PacketError::ExpiredLease => (Some(LeaseRejectReason::Expired), PacketError::ExpiredLease),
        PacketError::WrongRelay => (Some(LeaseRejectReason::WrongRelay), PacketError::WrongRelay),
        PacketError::InvalidRole | PacketError::KeyIdMismatch => (
            Some(LeaseRejectReason::InvalidSignature),
            PacketError::InvalidSignature,
        ),
        other => (None, other),
    }
}

/// How the relay answers when the session pool refuses a session with `e`:
/// a full pool is reported as such, anything else is recorded as a session
/// error without a rejection.
pub fn pool_rejection(e: SessionError) -> (r: (Option<LeaseRejectReason>, PacketError))
    ensures
        r == (if e == SessionError::SessionFull {
            (Some(LeaseRejectReason::SessionFull), PacketError::SessionFull)
        } else {
            (None, PacketError::SessionError)
        }),
{
    match e {
        SessionError::SessionFull => (Some(LeaseRejectReason::SessionFull), PacketError::SessionFull),
        _ => (None, PacketError::SessionError),
    }
}

/// The rejection sent when a session refuses to register a peer with `e`
/// (the error recorded is always a session error): a refused lease or an
/// identity already registered count as an invalid signature, a full
/// session as such, anything else as a wrong relay.
pub fn registration_rejection(e: SessionError) -> (r: LeaseRejectReason)
    ensures
        r == (match e {
            SessionError::InvalidLease | SessionError::PeerAlreadyRegistered => LeaseRejectReason::InvalidSignature,
            SessionError::SessionFull => LeaseRejectReason::SessionFull,
            _ => LeaseRejectReason::WrongRelay,
        }),
{
    match e {
        SessionError::InvalidLease | SessionError::PeerAlreadyRegistered => LeaseRejectReason::InvalidSignature,
        SessionError::SessionFull => LeaseRejectReason::SessionFull,
        _ => LeaseRejectReason::WrongRelay,
    }
}

} // verus!
