use wavry_core::gateway_relay::{
    ForwardGate, GatewayRelay, LeaseRejectReason, RelaySession, RouteSide,
    BANDWIDTH_LIMIT_BYTES_PER_SEC,
};
use wavry_core::relay_session::{PeerAddr, PeerRole};

const SEC: u64 = 1_000_000_000;
const TOKEN: &str = "abcdefghijklmnopqrstuvwxyz012345";

fn addr(last: u8, port: u16) -> PeerAddr {
    PeerAddr { ip: 0xffff_0a00_0000 | last as u128, port, ipv6: false }
}

fn session(id: u128, now: u64) -> RelaySession {
    RelaySession {
        host_email: "host@example.com".into(),
        client_email: "client@example.com".into(),
        session_id: id,
        host_addr: None,
        client_addr: None,
        created_at: now,
        bytes_sent: 0,
        last_tick: now,
    }
}

fn lease(role: PeerRole) -> Option<(Vec<u8>, PeerRole)> {
    Some((TOKEN.as_bytes().to_vec(), role))
}

#[test]
fn sessions_expire_and_are_capped() {
    let mut g = GatewayRelay::new();
    assert_eq!(g.open_session("t1".into(), session(1, 0), 0, 10 * SEC, 2), Ok(()));
    assert_eq!(g.open_session("t2".into(), session(2, SEC), SEC, 10 * SEC, 2), Ok(()));
    assert_eq!(
        g.open_session("t3".into(), session(3, 2 * SEC), 2 * SEC, 10 * SEC, 2),
        Err("Relay session capacity reached")
    );
    assert_eq!(g.open_session("t3".into(), session(3, 10 * SEC), 10 * SEC, 10 * SEC, 2), Ok(()));
    assert_eq!(g.sessions.len(), 2);
    assert_eq!(g.sessions[0].0, "t2");
}

#[test]
fn lease_checks() {
    let mut g = GatewayRelay::new();
    g.open_session(TOKEN.into(), session(7, 0), 0, 60 * SEC, 10).unwrap();
    assert_eq!(g.present_lease(None, 7, addr(1, 1), 0), Err(LeaseRejectReason::InvalidSignature));
    assert_eq!(
        g.present_lease(Some((vec![0xff, 0xfe], PeerRole::Server)), 7, addr(1, 1), 0),
        Err(LeaseRejectReason::InvalidSignature)
    );
    assert_eq!(
        g.present_lease(Some((b"short".to_vec(), PeerRole::Server)), 7, addr(1, 1), 0),
        Err(LeaseRejectReason::InvalidSignature)
    );
    let other = "zzzzzzzzzzzzzzzzzzzzzzzzzzzzzzzz";
    assert_eq!(
        g.present_lease(Some((other.as_bytes().to_vec(), PeerRole::Server)), 7, addr(1, 1), 0),
        Err(LeaseRejectReason::InvalidSignature)
    );
    assert_eq!(g.present_lease(lease(PeerRole::Server), 8, addr(1, 1), 0), Err(LeaseRejectReason::WrongRelay));
}

#[test]
fn lease_binds_both_sides_and_routes() {
    let mut g = GatewayRelay::new();
    g.open_session(TOKEN.into(), session(7, 0), 0, 60 * SEC, 10).unwrap();
    let host = addr(1, 1000);
    let client = addr(2, 2000);
    assert_eq!(g.present_lease(lease(PeerRole::Server), 7, host, 0), Ok(7));
    assert!(g.routes.is_empty());
    assert_eq!(g.present_lease(lease(PeerRole::Server), 7, host, 0), Ok(7));
    assert_eq!(g.present_lease(lease(PeerRole::Client), 7, client, 0), Ok(7));
    assert_eq!(g.routes.len(), 2);
    let h = g.routes.iter().find(|r| r.src == host).unwrap();
    assert_eq!(h.dest, client);
    assert_eq!(h.side, RouteSide::Host);
    let c = g.routes.iter().find(|r| r.src == client).unwrap();
    assert_eq!(c.dest, host);
    assert_eq!(
        g.present_lease(lease(PeerRole::Client), 7, addr(3, 3000), 0),
        Err(LeaseRejectReason::SessionFull)
    );
    assert_eq!(g.sessions[0].1.host_addr, Some(host));
    assert_eq!(g.sessions[0].1.client_addr, Some(client));
}

#[test]
fn client_may_take_empty_host_slot() {
    let mut g = GatewayRelay::new();
    g.open_session(TOKEN.into(), session(7, 0), 0, 60 * SEC, 10).unwrap();
    assert_eq!(g.present_lease(lease(PeerRole::Client), 7, addr(2, 2), 0), Ok(7));
    assert_eq!(g.present_lease(lease(PeerRole::Client), 7, addr(4, 4), 0), Ok(7));
    assert_eq!(g.sessions[0].1.client_addr, Some(addr(2, 2)));
    assert_eq!(g.sessions[0].1.host_addr, Some(addr(4, 4)));
}

#[test]
fn forwarding_is_gated_and_budgeted() {
    let mut g = GatewayRelay::new();
    g.open_session(TOKEN.into(), session(7, 0), 0, 60 * SEC, 10).unwrap();
    let host = addr(1, 1000);
    let client = addr(2, 2000);
    g.present_lease(lease(PeerRole::Server), 7, host, 0).unwrap();
    g.present_lease(lease(PeerRole::Client), 7, client, 0).unwrap();
    assert_eq!(g.forward_gate(addr(9, 9), 7, 100, 0), ForwardGate::NoRoute);
    assert_eq!(g.forward_gate(host, 7, 100, 0), ForwardGate::Check(RouteSide::Host));
    assert_eq!(g.forward_commit(host, 100, 0), Some(client));
    assert_eq!(g.sessions[0].1.bytes_sent, 100);
    assert_eq!(
        g.forward_gate(client, 7, BANDWIDTH_LIMIT_BYTES_PER_SEC - 100, SEC / 2),
        ForwardGate::Check(RouteSide::Client)
    );
    assert_eq!(g.forward_gate(client, 7, BANDWIDTH_LIMIT_BYTES_PER_SEC - 99, SEC / 2), ForwardGate::OverBudget);
    assert_eq!(g.forward_commit(client, BANDWIDTH_LIMIT_BYTES_PER_SEC - 99, SEC / 2), None);
    assert_eq!(g.forward_gate(client, 7, 1000, SEC), ForwardGate::Check(RouteSide::Client));
    assert_eq!(g.sessions[0].1.bytes_sent, 0);
    assert_eq!(g.forward_gate(client, 8, 10, SEC), ForwardGate::RouteDropped);
    assert_eq!(g.routes.len(), 1);
    assert_eq!(g.forward_gate(client, 7, 10, SEC), ForwardGate::NoRoute);
}

#[test]
fn idle_routes_are_dropped() {
    let mut g = GatewayRelay::new();
    g.open_session(TOKEN.into(), session(7, 0), 0, 600 * SEC, 10).unwrap();
    let host = addr(1, 1000);
    let client = addr(2, 2000);
    g.present_lease(lease(PeerRole::Server), 7, host, 0).unwrap();
    g.present_lease(lease(PeerRole::Client), 7, client, 0).unwrap();
    g.forward_commit(host, 10, 100 * SEC);
    g.cleanup_routes(121 * SEC);
    assert_eq!(g.routes.len(), 1);
    assert_eq!(g.routes[0].src, host);
    g.cleanup_routes(221 * SEC);
    assert!(g.routes.is_empty());
}

#[test]
fn minted_tokens_are_accepted() {
    let t = wavry_core::gateway_relay::random_relay_token();
    assert_eq!(t.len(), 64);
    assert!(t.chars().all(|c| c.is_ascii_hexdigit() && !c.is_ascii_uppercase()));
    assert!(wavry_core::security::is_valid_session_token(&t));
    assert_ne!(t, wavry_core::gateway_relay::random_relay_token());
    let mut g = GatewayRelay::new();
    g.open_session(t.clone(), session(9, 0), 0, 60 * SEC, 10).unwrap();
    assert_eq!(g.present_lease(Some((t.as_bytes().to_vec(), PeerRole::Server)), 9, addr(5, 5), 0), Ok(9));
}

#[test]
fn sweep_drops_expired_then_oldest_beyond_limit() {
    let mut g = GatewayRelay::new();
    for (i, t) in ["a", "b", "c", "d"].iter().enumerate() {
        let at = (i as u64) * SEC;
        assert_eq!(g.open_session(t.to_string(), session(i as u128, at), at, 100 * SEC, 10), Ok(()));
    }
    g.sweep(100 * SEC + 1, 100 * SEC, 2);
    let left: Vec<&str> = g.sessions.iter().map(|(t, _)| t.as_str()).collect();
    assert_eq!(left, vec!["c", "d"]);
    g.sweep(103 * SEC, 100 * SEC, 2);
    assert_eq!(g.sessions.len(), 0);
}
