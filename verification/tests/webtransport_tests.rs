use wavry_core::signal::SignalMessage;
use wavry_core::text_map::TextMap;
use wavry_core::webtransport::{ControlAction, ControlMessage, WebTransportSessions};

#[test]
fn text_map_insert_and_get() {
    let mut m = TextMap::new();
    assert_eq!(m.get("a"), None);
    m.insert("a".to_string(), "1".to_string());
    m.insert("b".to_string(), "2".to_string());
    m.insert("a".to_string(), "3".to_string());
    assert_eq!(m.get("a"), Some("3".to_string()));
    assert_eq!(m.get("b"), Some("2".to_string()));
    assert_eq!(m.entries.len(), 2);
}

#[test]
fn unbound_session_is_ignored() {
    let mut s = WebTransportSessions::new();
    let a = s.on_control(
        "s1",
        ControlMessage::WebRtcOffer { target_username: "bob".into(), sdp: "v=0".into() },
    );
    assert!(matches!(a, ControlAction::Ignore));
    assert_eq!(s.datagram_target("s1"), None);
}

#[test]
fn connect_asks_for_token_lookup() {
    let mut s = WebTransportSessions::new();
    match s.on_control("s1", ControlMessage::Connect { session_token: "tok".into() }) {
        ControlAction::LookupToken(t) => assert_eq!(t, "tok"),
        other => panic!("unexpected {:?}", other),
    }
    assert!(!s.bind("s1", None, true));
    assert!(!s.bind("s1", Some("alice".into()), false));
    assert!(s.bind("s1", Some("alice".into()), true));
}

#[test]
fn bound_session_relays_with_sender_name() {
    let mut s = WebTransportSessions::new();
    s.bind("s1", Some("alice".into()), true);
    match s.on_control(
        "s1",
        ControlMessage::WebRtcOffer { target_username: "bob".into(), sdp: "v=0".into() },
    ) {
        ControlAction::Relay { target, message: SignalMessage::Offer { target_username, sdp } } => {
            assert_eq!(target, "bob");
            assert_eq!(target_username, "alice");
            assert_eq!(sdp, "v=0");
        }
        other => panic!("unexpected {:?}", other),
    }
    assert_eq!(s.datagram_target("s1"), Some("bob".to_string()));
    match s.on_control(
        "s1",
        ControlMessage::WebRtcCandidate { target_username: "carol".into(), candidate: "c".into() },
    ) {
        ControlAction::Relay { target, message: SignalMessage::Candidate { target_username, .. } } => {
            assert_eq!(target, "carol");
            assert_eq!(target_username, "alice");
        }
        other => panic!("unexpected {:?}", other),
    }
    assert_eq!(s.datagram_target("s1"), Some("bob".to_string()));
    assert!(matches!(s.on_control("s1", ControlMessage::Other), ControlAction::Ignore));
}
