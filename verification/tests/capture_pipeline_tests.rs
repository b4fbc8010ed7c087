use wavry_core::capture_pipeline::{
    audio_after_monitor, audio_after_portal, audio_route_start, keyframe_interval_frames,
    video_after_portal, video_preflight, AudioElements, AudioRoute, AudioStep, CaptureSetupError,
    VideoElements,
};
use wavry_core::media::{Codec, EncodeConfig, Resolution};

const TAIL: &str = " ! audioconvert ! audioresample ! opusenc bitrate=128000 frame-size=5 ! appsink name=sink max-buffers=4 drop=true sync=false";

fn all_audio() -> AudioElements {
    AudioElements {
        pipewiresrc: true,
        pulsesrc: true,
        autoaudiosrc: true,
        audioconvert: true,
        audioresample: true,
        opusenc: true,
        appsink: true,
    }
}

fn all_video() -> VideoElements {
    VideoElements {
        pipewiresrc: true,
        ximagesrc: true,
        videoconvert: true,
        videoscale: true,
        videocrop: true,
        queue: true,
        appsink: true,
    }
}

fn config() -> EncodeConfig {
    EncodeConfig {
        codec: Codec::H264,
        resolution: Resolution { width: 1920, height: 1080 },
        fps: 60,
        bitrate_kbps: 8000,
        keyframe_interval_ms: 2000,
        display_id: None,
        enable_10bit: false,
        enable_hdr: false,
    }
}

#[test]
fn system_mix_opens_portal_then_reads_its_node() {
    assert_eq!(audio_route_start(&AudioRoute::SystemMix, &all_audio()), AudioStep::OpenPortal);
    let step = audio_after_portal(&Ok((7, 42)), &all_audio());
    assert_eq!(
        step,
        AudioStep::Ready(format!("pipewiresrc fd=7 path=42 do-timestamp=true{}", TAIL), true)
    );
}

#[test]
fn portal_failure_falls_back_to_pulse_or_fails() {
    let step = audio_after_portal(&Err("denied".to_string()), &all_audio());
    assert_eq!(step, AudioStep::Ready(format!("pulsesrc{}", TAIL), false));
    let mut el = all_audio();
    el.pulsesrc = false;
    let step = audio_after_portal(&Err("denied".to_string()), &el);
    assert_eq!(
        step,
        AudioStep::Fail(CaptureSetupError::PortalUnavailable(
            "audio portal failed and pulsesrc unavailable: denied".to_string()
        ))
    );
}

#[test]
fn microphone_prefers_pulse_then_default_source() {
    assert_eq!(
        audio_route_start(&AudioRoute::Microphone, &all_audio()),
        AudioStep::Ready(format!("pulsesrc{}", TAIL), false)
    );
    let mut el = all_audio();
    el.pulsesrc = false;
    assert_eq!(
        audio_route_start(&AudioRoute::Microphone, &el),
        AudioStep::Ready(format!("autoaudiosrc{}", TAIL), false)
    );
    el.autoaudiosrc = false;
    assert_eq!(
        audio_route_start(&AudioRoute::Microphone, &el),
        AudioStep::Fail(CaptureSetupError::GStreamer(
            "no supported microphone source element found (expected pulsesrc or autoaudiosrc)".to_string()
        ))
    );
    let mut el = all_audio();
    el.opusenc = false;
    el.appsink = false;
    assert_eq!(
        audio_route_start(&AudioRoute::Microphone, &el),
        AudioStep::Fail(CaptureSetupError::GStreamer(
            "missing GStreamer elements: opusenc, appsink".to_string()
        ))
    );
}

#[test]
fn application_route_resolves_its_monitor() {
    let step = audio_route_start(&AudioRoute::Application("Firefox".to_string()), &all_audio());
    assert_eq!(step, AudioStep::ResolveMonitor("Firefox".to_string()));
    let step = audio_after_monitor(&Ok("sink \"a\".monitor".to_string()));
    assert_eq!(
        step,
        AudioStep::Ready(format!("pulsesrc device=\"sink \\\"a\\\".monitor\"{}", TAIL), false)
    );
    assert_eq!(audio_after_monitor(&Err("none".to_string())), AudioStep::OpenPortal);
    let mut el = all_audio();
    el.pulsesrc = false;
    assert_eq!(
        audio_route_start(&AudioRoute::Application("x".to_string()), &el),
        AudioStep::Fail(CaptureSetupError::GStreamer(
            "application route requires pulsesrc but it is unavailable".to_string()
        ))
    );
}

#[test]
fn keyframe_interval_is_at_least_one_frame() {
    assert_eq!(keyframe_interval_frames(60, 2000), 120);
    assert_eq!(keyframe_interval_frames(30, 10), 1);
}

#[test]
fn video_preflight_picks_first_installed_encoder() {
    let cfg = config();
    let r = video_preflight(&cfg, &vec![false, false, false, true, true], true, &all_video());
    assert_eq!(r, Ok(("x264enc", "I420", "h264parse")));
    let r = video_preflight(&cfg, &vec![false, true, false, true, true], true, &all_video());
    assert_eq!(r, Ok(("nvh264enc", "NV12", "h264parse")));
    let r = video_preflight(&cfg, &vec![false; 5], true, &all_video());
    assert_eq!(
        r,
        Err(CaptureSetupError::Unsupported("missing GStreamer encoder element for H264".to_string()))
    );
    let r = video_preflight(&cfg, &vec![true; 5], false, &all_video());
    assert_eq!(
        r,
        Err(CaptureSetupError::GStreamer("missing GStreamer parser element: h264parse".to_string()))
    );
    let mut el = all_video();
    el.queue = false;
    let r = video_preflight(&cfg, &vec![true; 5], true, &el);
    assert_eq!(
        r,
        Err(CaptureSetupError::GStreamer("missing GStreamer elements: queue".to_string()))
    );
}

#[test]
fn screen_pipeline_from_portal_node() {
    let cfg = config();
    let r = video_after_portal(&cfg, "x264enc", "I420", "h264parse", &Ok((9, 51)), &all_video(), true, false, None, None);
    assert_eq!(
        r,
        Ok((
            "pipewiresrc fd=9 path=51 do-timestamp=true ! videoconvert ! video/x-raw,format=I420,width=1920,height=1080,framerate=60/1 ! queue max-size-buffers=1 leaky=downstream ! x264enc name=encoder ! h264parse config-interval=-1 ! appsink name=sink max-buffers=1 drop=true sync=false".to_string(),
            true
        ))
    );
}

#[test]
fn screen_pipeline_falls_back_to_x11_with_crop() {
    let cfg = config();
    let r = video_after_portal(
        &cfg,
        "x264enc",
        "I420",
        "h264parse",
        &Err("no portal".to_string()),
        &all_video(),
        false,
        true,
        Some((1920, 0, 0, 0)),
        None,
    );
    assert_eq!(
        r,
        Ok((
            "ximagesrc use-damage=0 ! videoconvert ! videocrop left=1920 right=0 top=0 bottom=0 ! videoscale ! video/x-raw,format=I420,width=1920,height=1080,framerate=60/1 ! queue max-size-buffers=1 leaky=downstream ! x264enc name=encoder ! h264parse config-interval=-1 ! appsink name=sink max-buffers=1 drop=true sync=false".to_string(),
            false
        ))
    );
    let r = video_after_portal(&cfg, "x264enc", "I420", "h264parse", &Err("no portal".to_string()), &all_video(), false, false, None, None);
    assert_eq!(r, Err(CaptureSetupError::Platform("no portal".to_string())));
}

#[test]
fn wayland_portal_failure_names_backends() {
    let cfg = config();
    let r = video_after_portal(&cfg, "x264enc", "I420", "h264parse", &Err("timeout".to_string()), &all_video(), true, true, None, Some("GNOME"));
    match r {
        Err(CaptureSetupError::PortalUnavailable(m)) => {
            assert!(m.starts_with("Wayland screencast portal failed: timeout. Ensure xdg-desktop-portal"));
            assert!(m.contains("Desktop 'GNOME': expected portal backend(s): "));
        }
        other => panic!("unexpected {:?}", other),
    }
}
