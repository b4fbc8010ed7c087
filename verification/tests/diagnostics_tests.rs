use wavry_core::diagnostics::{probed_elements, runtime_diagnostics, RuntimeProbe};

fn names(v: &[&str]) -> Vec<String> {
    v.iter().map(|s| s.to_string()).collect()
}

#[test]
fn wayland_host_missing_pieces() {
    let probe = RuntimeProbe {
        wayland_display: true,
        x11_display: false,
        xdg_current_desktop: Some("KDE".into()),
        available_portal_descriptors: vec![],
        available_elements: names(&["videoconvert", "queue", "appsink", "x264enc", "pulsesrc"]),
        compositor_name: Some("KWin (KDE Plasma)".into()),
        pipewire_running: true,
        portal_service_running: false,
    };
    let r = runtime_diagnostics(probe);
    assert_eq!(r.session_type, "wayland");
    assert_eq!(r.expected_portal_backends, names(&["xdg-desktop-portal-kde", "xdg-desktop-portal-gtk"]));
    assert_eq!(r.expected_portal_descriptors, names(&["kde.portal", "gtk.portal"]));
    assert_eq!(r.missing_expected_portal_descriptors, names(&["kde.portal", "gtk.portal"]));
    assert_eq!(r.required_video_source, "pipewiresrc");
    assert!(!r.required_video_source_available);
    assert_eq!(r.available_audio_sources, names(&["pulsesrc"]));
    assert_eq!(r.available_h264_encoders, names(&["x264enc"]));
    assert!(r.available_hevc_encoders.is_empty());
    assert_eq!(
        r.missing_gstreamer_elements,
        names(&["audioconvert", "audioresample", "opusenc", "pipewiresrc", "videoscale"])
    );
    assert_eq!(r.recommendations.len(), 7);
    assert!(r.recommendations[0].starts_with("Validate portal backend availability. Desktop 'KDE'"));
    assert_eq!(r.recommendations[1], "Install missing portal backend descriptor(s): kde.portal, gtk.portal");
    assert_eq!(r.recommendations[2], "Install missing GStreamer video source plugin: pipewiresrc");
    assert!(r.recommendations[3].starts_with("HEVC/H.265"));
    assert!(r.recommendations[4].starts_with("AV1"));
    assert_eq!(
        r.recommendations[5],
        "Install missing GStreamer elements: audioconvert, audioresample, opusenc, pipewiresrc, videoscale"
    );
    assert!(r.recommendations[6].starts_with("xdg-desktop-portal service is not running"));
    assert_eq!(r.compositor_name.as_deref(), Some("KWin (KDE Plasma)"));
}

#[test]
fn headless_host_with_everything() {
    let mut all: Vec<String> = probed_elements().iter().map(|s| s.to_string()).collect();
    all.extend(names(&["x265enc", "svtav1enc", "vaapih264enc"]));
    let probe = RuntimeProbe {
        wayland_display: false,
        x11_display: false,
        xdg_current_desktop: None,
        available_portal_descriptors: names(&["gnome.portal"]),
        available_elements: all,
        compositor_name: None,
        pipewire_running: false,
        portal_service_running: false,
    };
    let r = runtime_diagnostics(probe);
    assert_eq!(r.session_type, "headless");
    assert_eq!(r.required_video_source, "none");
    assert!(r.required_video_source_available);
    assert_eq!(r.available_audio_sources, names(&["pipewiresrc", "pulsesrc", "autoaudiosrc"]));
    assert_eq!(r.available_h264_encoders, names(&["vaapih264enc"]));
    assert!(r.missing_gstreamer_elements.is_empty());
    assert!(r.recommendations.is_empty());
    assert_eq!(r.expected_portal_backends.len(), 4);
}

#[test]
fn x11_host_needs_cropper() {
    let probe = RuntimeProbe {
        wayland_display: false,
        x11_display: true,
        xdg_current_desktop: None,
        available_portal_descriptors: vec![],
        available_elements: names(&[
            "appsink", "audioconvert", "audioresample", "opusenc", "queue", "videoconvert", "videoscale",
            "ximagesrc", "x264enc", "x265enc", "svtav1enc", "pulsesrc",
        ]),
        compositor_name: None,
        pipewire_running: false,
        portal_service_running: false,
    };
    let r = runtime_diagnostics(probe);
    assert_eq!(r.session_type, "x11");
    assert_eq!(r.missing_gstreamer_elements, names(&["videocrop"]));
    assert_eq!(r.recommendations, names(&["Install missing GStreamer elements: videocrop"]));
}
