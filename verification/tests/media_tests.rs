use wavry_core::media::{
    capabilities_from_codecs, hardware_codecs, opus_frame_duration_us, pack_u64, CapabilityProbe,
    Codec, DecodeConfig, DummyEncoder, DummyRenderer, EncodeConfig, NullProbe, RecorderConfig,
    Resolution, VideoCodecCapability, Quality, select_input_config, select_output_config, AudioConfigRange,
};
use wavry_core::media::AndroidProbe;
use wavry_core::pcm::{pcm_format, PcmAccumulator, PcmFormat, WaveSubFormat};
use wavry_core::portal::{
    backend_to_portal_descriptor, clamp_portal_dim, encoder_input_format,
    expected_portal_backends_from_desktop, portal_backend_hint_message, select_encoder,
};
use wavry_core::pulse::{
    find_monitor_source_for_sink_from_sinks, find_sink_index_for_application_from_sink_inputs,
    gst_escape_property_value, parse_app_property_value, parse_block_index,
};
use wavry_core::recording::{check_recordable, decimal_string, recording_filename, RecorderState};

#[test]
fn find_sink_index_for_application_matches_binary() {
    let sink_inputs = r#"
Sink Input #77
    Driver: PipeWire
    Sink: 2
    Properties:
        application.process.binary = "spotify"

Sink Input #80
    Driver: PipeWire
    Sink: 4
    Properties:
        application.process.binary = "discord"
"#;
    let sink = find_sink_index_for_application_from_sink_inputs(sink_inputs, "discord");
    assert_eq!(sink, Some(4));
}

#[test]
fn find_monitor_source_for_sink_reads_target_block() {
    let sinks = r#"
Sink #2
    State: RUNNING
    Name: alsa_output.usb-foo.analog-stereo
    Monitor Source: alsa_output.usb-foo.analog-stereo.monitor

Sink #4
    State: RUNNING
    Name: alsa_output.pci-0000_00_1f.3.analog-stereo
    Monitor Source: alsa_output.pci-0000_00_1f.3.analog-stereo.monitor
"#;
    let source = find_monitor_source_for_sink_from_sinks(sinks, 4);
    assert_eq!(
        source.as_deref(),
        Some("alsa_output.pci-0000_00_1f.3.analog-stereo.monitor")
    );
}

#[test]
fn expected_portal_backends_match_kde() {
    let backends = expected_portal_backends_from_desktop(Some("KDE"));
    assert_eq!(
        backends,
        vec!["xdg-desktop-portal-kde", "xdg-desktop-portal-gtk"]
    );
}

#[test]
fn expected_portal_backends_match_hyprland() {
    let backends = expected_portal_backends_from_desktop(Some("Hyprland"));
    assert_eq!(
        backends,
        vec![
            "xdg-desktop-portal-hyprland",
            "xdg-desktop-portal-wlr",
            "xdg-desktop-portal-gtk"
        ]
    );
}

#[test]
fn expected_portal_backends_default_when_unknown() {
    let backends = expected_portal_backends_from_desktop(Some("UnknownDesktop"));
    assert_eq!(
        backends,
        vec![
            "xdg-desktop-portal-kde",
            "xdg-desktop-portal-gnome",
            "xdg-desktop-portal-wlr",
            "xdg-desktop-portal-gtk"
        ]
    );
}

#[test]
fn test_pulse_monitor_resolution_syntax() {
    let sink_inputs = r#"
Sink Input #1
    Driver: module-protocol-native.c
    Owner Module: 15
    Client: 22
    Sink: 0
    Sample Specification: s16le 2ch 44100Hz
    Channel Map: front-left,front-right
    Format: pcm, format.sample_format = "\"s16le\""  format.rate = "44100"  format.channels = "2"  format.channel_map = "\"front-left,front-right\""
    Corked: no
    Mute: no
    Volume: front-left: 65536 / 100% / 0.00 dB,   front-right: 65536 / 100% / 0.00 dB
            balance 0.00
    Buffer Latency: 0 usec
    Sink Latency: 0 usec
    Resample method: n/a
    Properties:
        media.name = "Playback"
        application.name = "Spotify"
        application.process.id = "1234"
        application.process.binary = "spotify"
"#;
    let sink_id = find_sink_index_for_application_from_sink_inputs(sink_inputs, "spotify");
    assert_eq!(sink_id, Some(0));

    let sinks = r#"
Sink #0
    State: RUNNING
    Name: alsa_output.pci-0000_00_1f.3.analog-stereo
    Description: Built-in Audio Analog Stereo
    Driver: module-alsa-card.c
    Sample Specification: s16le 2ch 44100Hz
    Channel Map: front-left,front-right
    Owner Module: 7
    Mute: no
    Volume: front-left: 65536 / 100% / 0.00 dB,   front-right: 65536 / 100% / 0.00 dB
            balance 0.00
    Base Volume: 65536 / 100% / 0.00 dB
    Monitor Source: alsa_output.pci-0000_00_1f.3.analog-stereo.monitor
"#;
    let monitor = find_monitor_source_for_sink_from_sinks(sinks, 0);
    assert_eq!(
        monitor.as_deref(),
        Some("alsa_output.pci-0000_00_1f.3.analog-stereo.monitor")
    );
}

#[test]
fn backend_descriptor_mapping_is_stable() {
    assert_eq!(
        backend_to_portal_descriptor("xdg-desktop-portal-kde"),
        Some("kde.portal")
    );
    assert_eq!(
        backend_to_portal_descriptor("xdg-desktop-portal-gnome"),
        Some("gnome.portal")
    );
    assert_eq!(
        backend_to_portal_descriptor("xdg-desktop-portal-wlr"),
        Some("wlr.portal")
    );
    assert_eq!(
        backend_to_portal_descriptor("xdg-desktop-portal-hyprland"),
        Some("hyprland.portal")
    );
    assert_eq!(
        backend_to_portal_descriptor("xdg-desktop-portal-gtk"),
        Some("gtk.portal")
    );
    assert_eq!(
        backend_to_portal_descriptor("xdg-desktop-portal-unknown"),
        None
    );
}

#[test]
fn pactl_line_helpers() {
    assert_eq!(parse_block_index("  Sink Input #12 ", "Sink Input #"), Some(12));
    assert_eq!(parse_block_index("Sink #x", "Sink #"), None);
    assert_eq!(
        parse_app_property_value("  application.name = \"Fire fox\"  "),
        Some("Fire fox".to_string())
    );
    assert_eq!(parse_app_property_value("key ="), None);
    assert_eq!(parse_app_property_value("no equals"), None);
    assert_eq!(
        find_sink_index_for_application_from_sink_inputs("Sink Input #3\nSink: 9\n", "x"),
        None
    );
    assert_eq!(find_monitor_source_for_sink_from_sinks("Sink #1\n", 1), None);
}

#[test]
fn gst_escaping() {
    assert_eq!(gst_escape_property_value(r#"a"b\c"#), r#"a\"b\\c"#);
    assert_eq!(gst_escape_property_value("plain"), "plain");
}

#[test]
fn portal_and_encoder_choices() {
    assert_eq!(clamp_portal_dim(-5), 1);
    assert_eq!(clamp_portal_dim(70000), 65535);
    assert_eq!(clamp_portal_dim(1080), 1080);
    assert_eq!(encoder_input_format("vaapih264enc", true), "P010_10LE");
    assert_eq!(encoder_input_format("nvh265enc", false), "NV12");
    assert_eq!(encoder_input_format("x264enc", true), "I420");
    let avail = vec![false, false, false, false, true];
    assert_eq!(select_encoder(Codec::H264, false, &avail), Some(("openh264enc", "I420")));
    assert_eq!(select_encoder(Codec::Hevc, false, &vec![false; 4]), None);
    assert_eq!(
        portal_backend_hint_message(Some("sway")),
        "Desktop 'sway': expected portal backend(s): xdg-desktop-portal-wlr, xdg-desktop-portal-gtk"
    );
    assert_eq!(
        portal_backend_hint_message(None),
        "Desktop 'unknown desktop': expected portal backend(s): xdg-desktop-portal-kde, xdg-desktop-portal-gnome, xdg-desktop-portal-wlr, xdg-desktop-portal-gtk"
    );
}

#[test]
fn media_helpers() {
    assert_eq!(opus_frame_duration_us(), 5000);
    assert_eq!(pack_u64(1, 2), 0x1_0000_0002);
    let caps = capabilities_from_codecs(&vec![Codec::H264, Codec::Av1]);
    assert_eq!(caps[1], VideoCodecCapability::sdr(Codec::Av1, false));
    let mut caps2 = caps.clone();
    caps2[0].hardware_accelerated = true;
    assert_eq!(hardware_codecs(&caps2), vec![Codec::H264]);
    let probe = NullProbe;
    assert_eq!(probe.supported_hardware_encoders(), Ok(vec![]));
    let res = Resolution { width: 1280, height: 720 };
    let mut renderer = DummyRenderer::new(DecodeConfig {
        codec: Codec::Hevc,
        resolution: res,
        enable_10bit: false,
        enable_hdr: false,
    })
    .unwrap();
    assert!(renderer.push(&[1, 2, 3], 7).is_ok());
    let mut enc = DummyEncoder::new(EncodeConfig {
        codec: Codec::H264,
        resolution: res,
        fps: 30,
        bitrate_kbps: 1000,
        keyframe_interval_ms: 2000,
        display_id: None,
        enable_10bit: false,
        enable_hdr: false,
    });
    let mut keyframes = 0;
    for i in 0..120u64 {
        let f = enc.next_frame(i * 33_333);
        assert_eq!(f.data.len(), 1000);
        if f.keyframe {
            keyframes += 1;
        }
    }
    assert_eq!(keyframes, 2);
    let cfg = RecorderConfig::default();
    assert_eq!(cfg.quality, Quality::Standard);
    assert_eq!(cfg.output_dir, "recordings");
}

#[test]
fn recording_bookkeeping() {
    assert_eq!(decimal_string(0), "0");
    assert_eq!(decimal_string(1_700_000_123), "1700000123");
    let res = Resolution { width: 1920, height: 1080 };
    assert_eq!(
        recording_filename("wavry-capture", 1_700_000_000, res, Codec::Hevc),
        "wavry-capture-1700000000-1920x1080-Hevc.mp4"
    );
    assert!(check_recordable(Codec::Av1).is_err());
    assert!(check_recordable(Codec::H264).is_ok());
    let mut st = RecorderState::new(&RecorderConfig::default());
    assert!(st.needs_new_writer(Codec::H264, res));
    assert_eq!(st.next_video_sample(), None);
    st.writer_started(Codec::H264, res, 30);
    assert!(!st.needs_new_writer(Codec::H264, res));
    assert!(st.needs_new_writer(Codec::Hevc, res));
    assert_eq!(st.next_video_sample(), Some((0, 33)));
    assert_eq!(st.next_video_sample(), Some((33, 33)));
    assert_eq!(st.next_audio_sample(20_000), Some(960));
}

#[test]
fn audio_config_choice() {
    let mono = AudioConfigRange { channels: 1, min_sample_rate: 8000, max_sample_rate: 96000, buffer_size: Some((64, 4096)) };
    let stereo_low = AudioConfigRange { channels: 2, min_sample_rate: 8000, max_sample_rate: 44100, buffer_size: None };
    let stereo = AudioConfigRange { channels: 2, min_sample_rate: 44100, max_sample_rate: 48000, buffer_size: Some((512, 1024)) };
    let quad = AudioConfigRange { channels: 4, min_sample_rate: 48000, max_sample_rate: 48000, buffer_size: None };
    assert_eq!(select_output_config(&vec![mono, stereo_low, stereo]), Some((2, Some(512))));
    assert_eq!(select_output_config(&vec![mono, quad]), None);
    assert_eq!(select_input_config(&vec![mono, stereo, quad]), Some((1, Some(512))));
    assert_eq!(select_input_config(&vec![mono, stereo_low, quad]), Some((2, None)));
    assert_eq!(select_input_config(&vec![stereo_low]), None);
    let wide = AudioConfigRange { channels: 2, min_sample_rate: 48000, max_sample_rate: 48000, buffer_size: Some((16, 4096)) };
    assert_eq!(select_output_config(&vec![wide]), Some((0, Some(240))));
}

#[test]
fn pcm_backlog_drops_oldest_whole_frames() {
    let mut acc = PcmAccumulator::new(2);
    let mut chunk: Vec<i16> = Vec::new();
    for i in 0..1930i32 {
        chunk.push((i % 1000) as i16);
    }
    acc.ingest(1000, &chunk);
    assert_eq!(acc.pending(), 1920);
    assert_eq!(acc.peek_timestamp(), Some(1104));
    let frame = acc.take_frame().unwrap();
    assert_eq!(frame.len(), 480);
    assert_eq!(frame[0], 10);
    assert_eq!(acc.pending(), 1440);
    assert_eq!(acc.stamp_frame(0), 1104);
    assert_eq!(acc.peek_timestamp(), Some(6104));
}

#[test]
fn pcm_backlog_keeps_channel_alignment() {
    let mut acc = PcmAccumulator::new(2);
    let chunk: Vec<i16> = vec![7; 1925];
    acc.ingest(0, &chunk);
    assert_eq!(acc.pending(), 1921);
    assert_eq!(acc.peek_timestamp(), Some(41));
}

#[test]
fn pcm_short_backlog_yields_no_frame() {
    let mut acc = PcmAccumulator::new(2);
    assert_eq!(acc.stamp_frame(77), 77);
    assert_eq!(acc.peek_timestamp(), Some(5077));
    acc.ingest(500, &vec![1; 100]);
    assert_eq!(acc.peek_timestamp(), Some(500));
    assert!(acc.take_frame().is_none());
    assert_eq!(acc.pending(), 100);
    acc.ingest(900, &vec![2; 10]);
    assert_eq!(acc.peek_timestamp(), Some(500));
    assert_eq!(acc.pending(), 110);
}

#[test]
fn wave_format_classification() {
    assert_eq!(pcm_format(1, 16, WaveSubFormat::Other), Ok(PcmFormat::I16));
    assert_eq!(pcm_format(1, 32, WaveSubFormat::Other), Ok(PcmFormat::I32));
    assert_eq!(pcm_format(1, 24, WaveSubFormat::Pcm), Err("Unsupported PCM bit depth".to_string()));
    assert_eq!(pcm_format(3, 8, WaveSubFormat::Other), Ok(PcmFormat::F32));
    assert_eq!(pcm_format(65534, 32, WaveSubFormat::IeeeFloat), Ok(PcmFormat::F32));
    assert_eq!(pcm_format(65534, 32, WaveSubFormat::Pcm), Ok(PcmFormat::I32));
    assert_eq!(
        pcm_format(65534, 16, WaveSubFormat::Other),
        Err("Unsupported audio subformat".to_string())
    );
    assert_eq!(
        pcm_format(257, 16, WaveSubFormat::Pcm),
        Err("Unsupported audio format tag: 257".to_string())
    );
}

#[test]
fn android_probe_lists_mediacodec_support() {
    let p = AndroidProbe;
    assert_eq!(p.supported_encoders().unwrap(), vec![Codec::H264, Codec::Hevc]);
    assert_eq!(p.supported_hardware_encoders().unwrap(), Vec::<Codec>::new());
    let d = p.enumerate_displays().unwrap();
    assert_eq!(d.len(), 1);
    assert_eq!(d[0].name, "Internal Display");
    assert_eq!((d[0].resolution.width, d[0].resolution.height), (1080, 1920));
}
