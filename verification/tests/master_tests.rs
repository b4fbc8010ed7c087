use wavry_core::registry::{
    HeartbeatOutcome, LeaseQuota, RegisterOutcome, RelayRegisterRequest, RelayRegistry,
};
use wavry_core::selection::RelayState;
use wavry_core::master_signal::{candidate_geo, relay_candidates, MasterAction, MasterSignal, MasterSocket};

fn req(id: &str, endpoint: &str, bitrate: Option<u32>) -> RelayRegisterRequest {
    RelayRegisterRequest {
        relay_id: id.to_string(),
        endpoints: vec![endpoint.to_string()],
        region: Some("us-east".to_string()),
        asn: Some(64500),
        max_bitrate_kbps: bitrate,
    }
}

const SEC: u64 = 1_000_000_000;

#[test]
fn registration_checks() {
    let mut r = RelayRegistry::new();
    assert_eq!(r.register(req("  ", "1.2.3.4:9000", None), 0), RegisterOutcome::BadRequest);
    let mut empty = req("a", "x", None);
    empty.endpoints.clear();
    assert_eq!(r.register(empty, 0), RegisterOutcome::BadRequest);
    assert_eq!(r.register(req("a", "1.2.3.4:9000", Some(9_999)), 0), RegisterOutcome::BitrateTooLow);
    assert_eq!(r.register(req("a", "1.2.3.4:9000", None), 0), RegisterOutcome::Registered);
    assert_eq!(r.len(), 1);
    assert_eq!(r.relays[0].max_bitrate_kbps, 10_000);
    assert_eq!(r.relays[0].state, RelayState::New);
}

#[test]
fn at_most_five_relays_per_host() {
    let mut r = RelayRegistry::new();
    for i in 0..5 {
        let id = format!("relay-{}", i);
        assert_eq!(r.register(req(&id, "10.0.0.1:9000", None), 0), RegisterOutcome::Registered);
    }
    assert_eq!(r.register(req("relay-5", "10.0.0.1:9001", None), 0), RegisterOutcome::TooManyForHost);
    assert_eq!(r.register(req("relay-5", "10.0.0.2:9000", None), 0), RegisterOutcome::Registered);
    assert_eq!(r.count_host("10.0.0.1"), 5);
}

#[test]
fn reregistration_replaces() {
    let mut r = RelayRegistry::new();
    r.register(req("a", "1.1.1.1:1", None), 0);
    r.heartbeat("a", 5000, SEC);
    r.register(req("a", "2.2.2.2:1", Some(20_000)), 2 * SEC);
    assert_eq!(r.len(), 1);
    assert_eq!(r.relays[0].endpoints, vec!["2.2.2.2:1".to_string()]);
    assert_eq!(r.relays[0].load_centi, 0);
    assert_eq!(r.relays[0].state, RelayState::New);
}

#[test]
fn heartbeat_bands() {
    let mut r = RelayRegistry::new();
    r.register(req("a", "1.1.1.1:1", None), 0);
    assert_eq!(r.heartbeat("a", 10_001, SEC), HeartbeatOutcome::BadRequest);
    assert_eq!(r.heartbeat(" ", 10, SEC), HeartbeatOutcome::BadRequest);
    assert_eq!(r.heartbeat("b", 10, SEC), HeartbeatOutcome::NotFound);
    assert_eq!(r.heartbeat("a", 8_499, SEC), HeartbeatOutcome::Accepted);
    assert_eq!(r.relays[0].state, RelayState::Active);
    r.heartbeat("a", 8_500, SEC);
    assert_eq!(r.relays[0].state, RelayState::Probation);
    r.heartbeat("a", 9_500, SEC);
    assert_eq!(r.relays[0].state, RelayState::Degraded);
    assert!(r.update_state("a", RelayState::Draining));
    r.heartbeat("a", 100, 2 * SEC);
    assert_eq!(r.relays[0].state, RelayState::Draining);
    assert_eq!(r.relays[0].last_seen, 2 * SEC);
    assert!(!r.update_state("zzz", RelayState::Banned));
}

#[test]
fn readiness_needs_fresh_relay_and_key() {
    let mut r = RelayRegistry::new();
    assert!(!r.is_ready(true, 0));
    r.register(req("a", "1.1.1.1:1", None), 0);
    assert_eq!(r.count_assignable(60 * SEC), 1);
    assert!(r.is_ready(true, 120 * SEC));
    assert!(!r.is_ready(false, 0));
    assert!(!r.is_ready(true, 121 * SEC));
    r.update_state("a", RelayState::Quarantined);
    assert_eq!(r.count_assignable(SEC), 0);
}

#[test]
fn listing_reports_age_in_ms() {
    let mut r = RelayRegistry::new();
    r.register(req("a", "1.1.1.1:1", None), SEC);
    let l = r.list(3 * SEC + 500_000);
    assert_eq!(l.len(), 1);
    assert_eq!(l[0].relay_id, "a");
    assert_eq!(l[0].last_seen_ms_ago, 2000);
    assert_eq!(r.list(0)[0].last_seen_ms_ago, 0);
}

#[test]
fn lease_quota_per_minute() {
    let mut q = LeaseQuota::new();
    for i in 0..10 {
        assert!(q.check("alice", i * SEC));
    }
    assert!(!q.check("alice", 30 * SEC));
    assert!(q.check("bob", 30 * SEC));
    assert!(q.check("alice", 60 * SEC));
    assert!(!q.check("alice", 60 * SEC));
    assert!(q.check("alice", 62 * SEC));
}

#[test]
fn bind_name_takes_eight_chars() {
    assert_eq!(wavry_core::master_signal::bind_username("abcdefghijk"), "user_abcdefgh");
    assert_eq!(wavry_core::master_signal::bind_username("xyz"), "user_xyz");
}

#[test]
fn master_socket_flow() {
    let mut quota = LeaseQuota::new();
    let mut s = MasterSocket::new();
    let a = s.on_message(
        MasterSignal::RequestRelay { target_username: "bob".into(), region: None },
        &mut quota,
        0,
    );
    assert!(matches!(a, MasterAction::Ignore));
    match s.on_message(MasterSignal::Bind { token: "tok12345678".into() }, &mut quota, 0) {
        MasterAction::RegisterPeer(u) => assert_eq!(u, "user_tok12345"),
        other => panic!("unexpected {:?}", other),
    }
    match s.on_message(
        MasterSignal::Offer { target_username: "bob".into(), sdp: "v=0".into(), public_addr: None },
        &mut quota,
        0,
    ) {
        MasterAction::Relay { target, message: MasterSignal::Offer { target_username, sdp, .. } } => {
            assert_eq!(target, "bob");
            assert_eq!(target_username, "user_tok12345");
            assert_eq!(sdp, "v=0");
        }
        other => panic!("unexpected {:?}", other),
    }
    for _ in 0..10 {
        let a = s.on_message(
            MasterSignal::RequestRelay { target_username: "bob".into(), region: Some("eu-west".into()) },
            &mut quota,
            SEC,
        );
        match a {
            MasterAction::AssignRelay { host, client, region } => {
                assert_eq!(host, "user_tok12345");
                assert_eq!(client, "bob");
                assert_eq!(region, Some("eu-west".to_string()));
            }
            other => panic!("unexpected {:?}", other),
        }
    }
    match s.on_message(
        MasterSignal::RequestRelay { target_username: "bob".into(), region: None },
        &mut quota,
        2 * SEC,
    ) {
        MasterAction::Error { code, message } => {
            assert_eq!(code, 429);
            assert_eq!(message, "Lease rate limit exceeded. Please wait a moment.");
        }
        other => panic!("unexpected {:?}", other),
    }
}

#[test]
fn offered_relays_exclude_drained() {
    let mut r = RelayRegistry::new();
    r.register(req("a", "1.1.1.1:1", None), 0);
    r.register(req("b", "2.2.2.2:1", None), 0);
    r.register(req("c", "3.3.3.3:1", None), 0);
    r.update_state("b", RelayState::Draining);
    let idx = relay_candidates(&r);
    assert_eq!(idx, vec![0, 2]);
    let geo = candidate_geo(&r, &idx);
    assert_eq!(geo.len(), 2);
    assert_eq!(geo[1].region.as_deref(), Some("us-east"));
    assert_eq!(geo[1].asn, Some(64500));
}

#[test]
fn signing_key_id_from_public_half() {
    let mut key = vec![0u8; 32];
    key.extend((0u8..32).map(|b| b + 0xa0));
    let public = wavry_core::master_signal::public_key_from_signing_key(&key);
    assert_eq!(public.len(), 32);
    assert_eq!(public[0], 0xa0);
    assert_eq!(wavry_core::master_signal::derive_default_key_id(&key), "ka0a1a2a3a4a5a6a7");
}

#[test]
fn sweep_quarantines_then_forgets_silent_relays() {
    let mut r = RelayRegistry::new();
    r.register(req("quiet", "1.1.1.1:1", None), 0);
    r.register(req("draining", "2.2.2.2:1", None), 0);
    r.register(req("fresh", "3.3.3.3:1", None), 0);
    r.update_state("draining", RelayState::Draining);
    r.heartbeat("fresh", 1000, 170 * SEC);
    r.sweep(180 * SEC);
    assert_eq!(r.relays.len(), 3);
    assert_eq!(r.relays[0].state, RelayState::Quarantined);
    assert_eq!(r.relays[1].state, RelayState::Draining);
    assert_ne!(r.relays[2].state, RelayState::Quarantined);
    r.sweep(601 * SEC);
    assert_eq!(r.relays.len(), 1);
    assert_eq!(r.relays[0].relay_id, "fresh");
}
