use wavry_core::portal::{
    detect_compositor_name, portal_failure_message, portal_retry_delay, select_portal_monitor_stream,
};
use wavry_core::web::{webrtc_delivery, webrtc_sender, WebRtcOfferRequest};
use wavry_core::signal::SignalMessage;
use wavry_core::media::{Codec, DummyCapturer, FrameCapturer, UnsupportedCapturer};
use wavry_core::portal::{require_decoder, require_elements, select_parser};

#[test]
fn compositor_detection_order() {
    assert_eq!(detect_compositor_name(Some("wayland-0"), true, true, false, false, false).as_deref(), Some("KWin (KDE Plasma)"));
    assert_eq!(detect_compositor_name(Some("wayland-0"), false, true, true, false, false).as_deref(), Some("GNOME Shell (Mutter)"));
    assert_eq!(detect_compositor_name(Some("wayland-0"), false, false, false, true, true).as_deref(), Some("Hyprland"));
    assert_eq!(detect_compositor_name(Some("wayland-1"), false, false, false, false, true).as_deref(), Some("Wayland (wayland-1)"));
    assert_eq!(detect_compositor_name(None, true, false, false, false, true).as_deref(), Some("X11"));
    assert_eq!(detect_compositor_name(None, false, false, false, false, false), None);
}

#[test]
fn monitor_stream_choice() {
    let streams = vec![false, true, true, false, true];
    assert_eq!(select_portal_monitor_stream(&streams, None), Ok(1));
    assert_eq!(select_portal_monitor_stream(&streams, Some(1)), Ok(2));
    assert_eq!(select_portal_monitor_stream(&streams, Some(2)), Ok(4));
    assert_eq!(select_portal_monitor_stream(&streams, Some(3)), Ok(1));
    assert_eq!(select_portal_monitor_stream(&vec![false], Some(0)), Err("no monitor streams returned"));
}

#[test]
fn portal_retry_schedule() {
    assert_eq!(portal_retry_delay(1), Some(350));
    assert_eq!(portal_retry_delay(2), Some(700));
    assert_eq!(portal_retry_delay(3), Some(1400));
    assert_eq!(portal_retry_delay(4), None);
}

#[test]
fn portal_failure_guidance() {
    assert_eq!(
        portal_failure_message("screencast", "denied", false, false, false, None),
        "Portal screencast failed after 4 attempts. Check permissions and portal availability: denied."
    );
    let m = portal_failure_message("screencast", "denied", true, false, true, Some("sway"));
    assert_eq!(
        m,
        "Portal screencast failed after 4 attempts. Check permissions and portal availability: denied. Guidance: xdg-desktop-portal process not detected | Desktop 'sway': expected portal backend(s): xdg-desktop-portal-wlr, xdg-desktop-portal-gtk"
    );
}

#[test]
fn webrtc_relay_replies() {
    assert_eq!(webrtc_sender(Ok(Some("alice".into()))), Ok("alice".to_string()));
    assert_eq!(webrtc_sender(Ok(None)), Err((401, "Invalid or expired session token")));
    assert_eq!(webrtc_sender(Err("db down".into())), Err((500, "Session lookup failed")));
    let ok = webrtc_delivery("alice".into(), "bob".into(), true).unwrap();
    assert_eq!(ok.0, 202);
    assert_eq!(ok.1.from_username, "alice");
    assert!(ok.1.relayed);
    match webrtc_delivery("alice".into(), "bob".into(), false) {
        Err((404, m)) => assert_eq!(m, "Target user 'bob' is not connected"),
        _ => panic!("expected 404"),
    }
    let req = WebRtcOfferRequest { session_token: "t".into(), target_username: "bob".into(), sdp: "v=0".into() };
    match req.signal_from("alice".into()) {
        SignalMessage::Offer { target_username, sdp } => {
            assert_eq!(target_username, "alice");
            assert_eq!(sdp, "v=0");
        }
        _ => panic!("expected offer"),
    }
}

#[test]
fn gstreamer_element_requirements() {
    assert_eq!(require_elements(&vec!["a", "b", "c"], &vec![true, true, true]), Ok(()));
    assert_eq!(
        require_elements(&vec!["videoconvert", "queue", "appsink"], &vec![false, true, false]),
        Err("missing GStreamer elements: videoconvert, appsink".to_string())
    );
    assert_eq!(select_parser(Codec::Hevc, true), Ok("h265parse"));
    assert_eq!(select_parser(Codec::Av1, false), Err("missing GStreamer parser element: av1parse".to_string()));
    assert_eq!(require_decoder(Codec::Hevc, &vec![false, true]), Ok(()));
    assert_eq!(
        require_decoder(Codec::H264, &vec![false, false, false]),
        Err("missing GStreamer decoder for H264. Tried: vaapih264dec, avdec_h264, openh264dec".to_string())
    );
}

#[test]
fn stand_in_capturers_fail() {
    let mut d = DummyCapturer::new().unwrap();
    assert_eq!(d.capture().err(), Some("DummyCapturer not implemented".to_string()));
    let mut u = UnsupportedCapturer;
    assert_eq!(u.capture().err(), Some("frame capture is not implemented for this platform".to_string()));
}
