use wavry_core::lease::{
    claims_rejection, lease_token_len_ok, pool_rejection, registration_rejection, validate_lease_claims,
    LeaseClaims, PacketError,
};
use wavry_core::gateway_relay::LeaseRejectReason;
use wavry_core::heartbeat::{heartbeat_interval_ms, heartbeat_step, HeartbeatAction, HeartbeatOutcome};
use wavry_core::relay_guard::{BannedIPs, IpRateLimiter};
use wavry_core::relay_session::{
    load_shed_threshold, PeerAddr, PeerRole, RelaySession, SessionError, SessionPool, SessionState,
};

const SEC: u64 = 1_000_000_000;

fn addr(port: u16) -> PeerAddr {
    PeerAddr {
        ip: 0x7f00_0001,
        port,
        ipv6: false,
    }
}

fn new_session_id() -> u128 {
    uuid::Uuid::new_v4().as_u128()
}

#[test]
fn register_peer_allows_nat_rebind_for_same_identity() {
    let session_id = new_session_id();
    let now = 1_000 * SEC;
    let mut session = RelaySession::new(session_id, 60 * SEC, now);

    session
        .register_peer(PeerRole::Client, "client-a".to_string(), addr(41000), now)
        .expect("client register");
    assert_eq!(session.state, SessionState::WaitingPeer);

    session
        .register_peer(PeerRole::Server, "server-a".to_string(), addr(42000), now)
        .expect("server register");
    assert_eq!(session.state, SessionState::Active);

    session
        .register_peer(PeerRole::Client, "client-a".to_string(), addr(43000), now)
        .expect("client rebinding register");
    assert_eq!(
        session
            .client
            .as_ref()
            .expect("client present after rebinding")
            .socket_addr,
        addr(43000)
    );
    assert!(session.is_active(now));
}

#[test]
fn register_peer_rejects_role_identity_swap() {
    let session_id = new_session_id();
    let now = 1_000 * SEC;
    let mut session = RelaySession::new(session_id, 60 * SEC, now);

    session
        .register_peer(PeerRole::Client, "client-a".to_string(), addr(41000), now)
        .expect("client register");

    let err = session
        .register_peer(PeerRole::Client, "client-b".to_string(), addr(42000), now)
        .expect_err("expected identity swap rejection");
    assert!(matches!(err, SessionError::InvalidLease));
}

#[test]
fn renew_expired_session_fails() {
    let session_id = new_session_id();
    let now = 1_000 * SEC;
    let mut session = RelaySession::new(session_id, 0, now);

    let err = session
        .renew_lease(30 * SEC, now)
        .expect_err("expired lease renew should fail");
    assert!(matches!(err, SessionError::LeaseExpired));
    assert_eq!(session.state, SessionState::Expired);
}

#[test]
fn cleanup_reports_expired_and_idle_sessions() {
    let start = 1_000 * SEC;
    let mut pool = SessionPool::new(8, 5 * SEC);

    let expired_id = new_session_id();
    pool.get_or_create(expired_id, 0, start)
        .expect("create expired");
    let mut expired = pool.remove(&expired_id).expect("session present");
    expired.expire();
    pool.insert_session(expired);

    let idle_id = new_session_id();
    pool.get_or_create(idle_id, 120 * SEC, start)
        .expect("create idle");

    let cleanup = pool.cleanup(start + 10 * SEC);
    assert_eq!(cleanup.expired_sessions, 1);
    assert_eq!(cleanup.idle_sessions, 1);
    assert_eq!(cleanup.total_removed(), 2);
    assert!(pool.is_empty());
}

#[test]
fn session_pool_refuses_when_full_and_sheds_load() {
    let now = 10 * SEC;
    let mut pool = SessionPool::new(2, 5 * SEC);
    pool.get_or_create(1, 60 * SEC, now).unwrap();
    pool.get_or_create(2, 60 * SEC, now).unwrap();
    assert_eq!(pool.get_or_create(3, 60 * SEC, now), Err(SessionError::SessionFull));
    assert!(pool.get_or_create(1, 60 * SEC, now).is_ok());
    assert_eq!(load_shed_threshold(100, 95), 95);
    assert_eq!(load_shed_threshold(1, 50), 1);
    assert!(pool.should_shed_new_session(3, 95));
    assert!(!pool.should_shed_new_session(1, 95));
    assert!(!pool.is_ready(true, true, 100));
    assert!(!pool.is_ready(false, true, 100));
}

fn build_claims(session_id: u128) -> LeaseClaims {
    let now = chrono::Utc::now();
    LeaseClaims {
        wavry_id: "user-123".to_string(),
        session_id,
        role: "client".to_string(),
        relay_id: Some("relay-a".to_string()),
        key_id: Some("kid-a".to_string()),
        issued_at: Some(now.to_rfc3339()),
        not_before: Some((now - chrono::Duration::seconds(1)).to_rfc3339()),
        expiration: (now + chrono::Duration::minutes(5)).to_rfc3339(),
        soft_limit_kbps: Some(30_000),
        hard_limit_kbps: Some(60_000),
    }
}

#[test]
fn validate_claims_accepts_valid_lease() {
    let session_id = new_session_id();
    let claims = build_claims(session_id);
    let validated = validate_lease_claims(
        &claims,
        session_id,
        "relay-a",
        Some("kid-a"),
        PeerRole::Client,
    )
    .expect("valid lease should pass");
    assert_eq!(validated.wavry_id, "user-123");
    assert!(matches!(validated.peer_role, PeerRole::Client));
}

#[test]
fn validate_claims_rejects_wrong_relay() {
    let session_id = new_session_id();
    let claims = build_claims(session_id);
    let err = validate_lease_claims(
        &claims,
        session_id,
        "relay-b",
        Some("kid-a"),
        PeerRole::Client,
    )
    .expect_err("wrong relay should fail");
    assert!(matches!(err, PacketError::WrongRelay));
}

#[test]
fn validate_claims_rejects_key_id_mismatch() {
    let session_id = new_session_id();
    let claims = build_claims(session_id);
    let err = validate_lease_claims(
        &claims,
        session_id,
        "relay-a",
        Some("kid-b"),
        PeerRole::Client,
    )
    .expect_err("key id mismatch should fail");
    assert!(matches!(err, PacketError::KeyIdMismatch));
}

#[test]
fn validate_claims_rejects_expired_lease() {
    let session_id = new_session_id();
    let mut claims = build_claims(session_id);
    claims.expiration = (chrono::Utc::now() - chrono::Duration::minutes(2)).to_rfc3339();
    let err = validate_lease_claims(
        &claims,
        session_id,
        "relay-a",
        Some("kid-a"),
        PeerRole::Client,
    )
    .expect_err("expired lease should fail");
    assert!(matches!(err, PacketError::ExpiredLease));
}

#[test]
fn validate_claims_rejects_bad_timestamp_and_role() {
    let session_id = new_session_id();
    let mut claims = build_claims(session_id);
    claims.expiration = "not a time".to_string();
    let err = validate_lease_claims(&claims, session_id, "relay-a", None, PeerRole::Client)
        .expect_err("unparsable expiry");
    assert!(matches!(err, PacketError::InvalidPayload));
    let claims = build_claims(session_id);
    let err = validate_lease_claims(&claims, session_id, "relay-a", None, PeerRole::Server)
        .expect_err("role mismatch");
    assert!(matches!(err, PacketError::InvalidRole));
    let err = validate_lease_claims(&claims, 0, "relay-a", None, PeerRole::Client)
        .expect_err("other session");
    assert!(matches!(err, PacketError::InvalidPayload));
}

#[test]
fn ip_rate_limiter_counts_per_second() {
    let mut limiter = IpRateLimiter::new(2);
    let ip = 0xffff_0a00_0001u128;
    assert!(limiter.check(ip, 0));
    assert!(limiter.check(ip, 10));
    assert!(!limiter.check(ip, 20));
    assert!(limiter.check(ip + 1, 20));
    assert!(limiter.check(ip, SEC + 5));
    limiter.cleanup(4 * SEC);
    assert!(limiter.check(ip, 4 * SEC));
}

#[test]
fn banned_ips_after_five_strikes() {
    let mut banned = BannedIPs::new();
    let ip = 42u128;
    for i in 0..4u64 {
        banned.add_strike(ip, i);
        assert!(!banned.is_banned(ip, i));
    }
    banned.add_strike(ip, 10);
    assert!(banned.is_banned(ip, 11));
    assert!(banned.is_banned(ip, 10 + 299 * SEC));
    assert!(!banned.is_banned(ip, 10 + 300 * SEC));
    assert!(!banned.is_banned(ip, 10 + 300 * SEC + 1));
    banned.add_strike(7, 0);
    banned.cleanup(3_600 * SEC);
    banned.add_strike(7, 3_600 * SEC);
    assert!(!banned.is_banned(7, 3_600 * SEC));
}

#[test]
fn heartbeat_failures_lead_to_reregistration() {
    assert_eq!(heartbeat_step(3, HeartbeatOutcome::Response(204)), (0, true, HeartbeatAction::Continue));
    assert_eq!(heartbeat_step(0, HeartbeatOutcome::Response(500)), (1, false, HeartbeatAction::Continue));
    assert_eq!(heartbeat_step(0, HeartbeatOutcome::Response(404)), (0, true, HeartbeatAction::Reregister));
    assert_eq!(heartbeat_step(4, HeartbeatOutcome::TransportError), (5, false, HeartbeatAction::Continue));
    assert_eq!(heartbeat_step(5, HeartbeatOutcome::TransportError), (0, true, HeartbeatAction::Reregister));
    assert_eq!(heartbeat_step(5, HeartbeatOutcome::Response(503)), (0, true, HeartbeatAction::Reregister));
    assert_eq!(heartbeat_interval_ms(100), 500);
    assert_eq!(heartbeat_interval_ms(15_000), 15_000);
}

#[test]
fn lease_refusals_map_to_reject_reasons() {
    assert!(!lease_token_len_ok(0));
    assert!(lease_token_len_ok(8192));
    assert!(!lease_token_len_ok(8193));
    assert_eq!(claims_rejection(PacketError::ExpiredLease), (Some(LeaseRejectReason::Expired), PacketError::ExpiredLease));
    assert_eq!(claims_rejection(PacketError::KeyIdMismatch), (Some(LeaseRejectReason::InvalidSignature), PacketError::InvalidSignature));
    assert_eq!(claims_rejection(PacketError::InvalidSessionId), (None, PacketError::InvalidSessionId));
    assert_eq!(pool_rejection(SessionError::SessionFull), (Some(LeaseRejectReason::SessionFull), PacketError::SessionFull));
    assert_eq!(pool_rejection(SessionError::RateLimited), (None, PacketError::SessionError));
    assert_eq!(registration_rejection(SessionError::PeerAlreadyRegistered), LeaseRejectReason::InvalidSignature);
    assert_eq!(registration_rejection(SessionError::LeaseExpired), LeaseRejectReason::WrongRelay);
}
