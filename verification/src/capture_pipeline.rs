//! Choice and text of the GStreamer capture pipelines on Linux: audio from
//! the PipeWire portal, PulseAudio or the default source, and screen video
//! from the PipeWire portal or X11. Opening the portal, probing elements and
//! asking PulseAudio are done by the caller, which hands the outcomes in.

use vstd::prelude::*;
use crate::media::{Codec, EncodeConfig};
use crate::portal::{
    codec_debug_name, expected_backends, hardware_encoders, input_format_of, joined, parser_name,
    portal_backend_hint_message, require_elements, select_encoder, select_parser, software_encoders,
    str_views, unfound,
};
use crate::security::opt_chars;
use crate::pulse::{gst_escape_property_value, gst_escaped};
use crate::recording::{decimal, decimal_string};
use crate::text::{append_str, to_owned_string};

verus! {

/// Why a capture pipeline cannot be set up.
#[derive(Debug, Clone, PartialEq, Eq)]
pub enum CaptureSetupError {
    /// No encoder for the codec is installed.
    Unsupported(String),
    /// A GStreamer element is missing.
    GStreamer(String),
    /// The screencast or audio portal failed and there is no way around it.
    PortalUnavailable(String),
    /// No display to capture.
    Platform(String),
}

/// Where captured audio comes from.
#[derive(Debug, Clone, PartialEq, Eq)]
pub enum AudioRoute {
    /// Everything the system plays.
    SystemMix,
    /// The default microphone.
    Microphone,
    /// What one application plays, by name.
    Application(String),
}

/// Which GStreamer elements an audio pipeline may use were found.
#[derive(Debug, Clone, Copy, PartialEq, Eq, Structural)]
pub struct AudioElements {
    pub pipewiresrc: bool,
    pub pulsesrc: bool,
    pub autoaudiosrc: bool,
    pub audioconvert: bool,
    pub audioresample: bool,
    pub opusenc: bool,
    pub appsink: bool,
}

/// The next thing to do while setting up audio capture.
#[derive(Debug, Clone, PartialEq, Eq)]
pub enum AudioStep {
    /// Launch this pipeline; `true` when it reads the portal's descriptor,
    /// which must then be kept open.
    Ready(String, bool),
    /// Open the PipeWire audio portal and hand its outcome to
    /// [`audio_after_portal`].
    OpenPortal,
    /// Ask PulseAudio for the monitor source of this application and hand
    /// the outcome to [`audio_after_monitor`].
    ResolveMonitor(String),
    /// Setting up failed.
    Fail(CaptureSetupError),
}

/// Everything after an audio source: conversion, resampling, 5 ms Opus
/// frames at 128 kbit/s, and the sink.
pub open spec fn audio_tail() -> Seq<char> {
    " ! audioconvert ! audioresample ! opusenc bitrate=128000 frame-size=5 ! appsink name=sink max-buffers=4 drop=true sync=false"@
}

/// The audio pipeline reading the portal's PipeWire node.
pub open spec fn pipewire_audio_pipeline(fd: u32, node: u32) -> Seq<char> {
    "pipewiresrc fd="@ + decimal(fd as nat) + " path="@ + decimal(node as nat) + " do-timestamp=true"@
        + audio_tail()
}

/// The audio pipeline reading one PulseAudio source.
pub open spec fn pulse_device_pipeline(source: Seq<char>) -> Seq<char> {
    "pulsesrc device=\""@ + gst_escaped(source) + "\""@ + audio_tail()
}

/// The elements an audio pipeline from `source` needs, in order.
pub open spec fn audio_chain(source: Seq<char>) -> Seq<Seq<char>> {
    seq![source, "audioconvert"@, "audioresample"@, "opusenc"@, "appsink"@]
}

/// Which of [`audio_chain`] were found, for a source found or not.
pub open spec fn audio_chain_found(source_found: bool, el: AudioElements) -> Seq<bool> {
    seq![source_found, el.audioconvert, el.audioresample, el.opusenc, el.appsink]
}

/// The error for missing elements, as [`require_elements`] words it.
pub open spec fn missing_message(names: Seq<Seq<char>>, found: Seq<bool>) -> Seq<char> {
    "missing GStreamer elements: "@ + joined(unfound(names, found), ", "@)
}

/// `r` launches `pipeline` (reading the portal's descriptor when `keeps_fd`)
/// when every element of the chain from `source` was found; otherwise it
/// fails naming the missing ones.
pub open spec fn audio_chain_step(
    r: AudioStep,
    source: Seq<char>,
    source_found: bool,
    el: AudioElements,
    pipeline: Seq<char>,
    keeps_fd: bool,
) -> bool {
    let names = audio_chain(source);
    let found = audio_chain_found(source_found, el);
    if unfound(names, found).len() == 0 {
        r matches AudioStep::Ready(p, k) && p@ == pipeline && k == keeps_fd
    } else {
        r matches AudioStep::Fail(CaptureSetupError::GStreamer(m)) && m@ == missing_message(names, found)
    }
}

/// Launches `pipeline` when the chain from `source` is complete.
fn chain_step(
    source: &'static str,
    source_found: bool,
    el: &AudioElements,
    pipeline: String,
    keeps_fd: bool,
) -> (r: AudioStep)
    ensures
        audio_chain_step(r, source@, source_found, *el, pipeline@, keeps_fd),
{
    let names: Vec<&'static str> = vec![source, "audioconvert", "audioresample", "opusenc", "appsink"];
    let found: Vec<bool> = vec![source_found, el.audioconvert, el.audioresample, el.opusenc, el.appsink];
    proof {
        assert(str_views(names@) =~= audio_chain(source@));
        assert(found@ =~= audio_chain_found(source_found, *el));
    }
    match require_elements(&names, &found) {
        Ok(()) => AudioStep::Ready(pipeline, keeps_fd),
        Err(m) => AudioStep::Fail(CaptureSetupError::GStreamer(m)),
    }
}

/// `"pulsesrc"` followed by [`audio_tail`].
fn pulse_pipeline() -> (r: String)
    ensures
        r@ == "pulsesrc"@ + audio_tail(),
{
    let mut p = to_owned_string("pulsesrc");
    append_str(
        &mut p,
        " ! audioconvert ! audioresample ! opusenc bitrate=128000 frame-size=5 ! appsink name=sink max-buffers=4 drop=true sync=false",
    );
    p
}

/// The first step of setting up capture for `route`: the system mix needs
/// the portal; the microphone uses PulseAudio when present, else the
/// default source; an application needs PulseAudio and its monitor source.
pub fn audio_route_start(route: &AudioRoute, el: &AudioElements) -> (r: AudioStep)
    ensures
        match route {
            AudioRoute::SystemMix => r == AudioStep::OpenPortal,
            AudioRoute::Microphone => if el.pulsesrc {
                audio_chain_step(r, "pulsesrc"@, true, *el, "pulsesrc"@ + audio_tail(), false)
            } else if el.autoaudiosrc {
                audio_chain_step(r, "autoaudiosrc"@, true, *el, "autoaudiosrc"@ + audio_tail(), false)
            } else {
                r matches AudioStep::Fail(CaptureSetupError::GStreamer(m)) && m@
                    == "no supported microphone source element found (expected pulsesrc or autoaudiosrc)"@
            },
            AudioRoute::Application(app) => if !el.pulsesrc {
                r matches AudioStep::Fail(CaptureSetupError::GStreamer(m)) && m@
                    == "application route requires pulsesrc but it is unavailable"@
            } else if unfound(audio_chain("pulsesrc"@), audio_chain_found(true, *el)).len() > 0 {
                r matches AudioStep::Fail(CaptureSetupError::GStreamer(m)) && m@ == missing_message(
                    audio_chain("pulsesrc"@),
                    audio_chain_found(true, *el),
                )
            } else {
                r matches AudioStep::ResolveMonitor(a) && a@ == app@
            },
        },
{
    match route {
        AudioRoute::SystemMix => AudioStep::OpenPortal,
        AudioRoute::Microphone => {
            if el.pulsesrc {
                chain_step("pulsesrc", true, el, pulse_pipeline(), false)
            } else if el.autoaudiosrc {
                let mut p = to_owned_string("autoaudiosrc");
                append_str(
                    &mut p,
                    " ! audioconvert ! audioresample ! opusenc bitrate=128000 frame-size=5 ! appsink name=sink max-buffers=4 drop=true sync=false",
                );
                chain_step("autoaudiosrc", true, el, p, false)
            } else {
                AudioStep::Fail(
                    CaptureSetupError::GStreamer(
                        to_owned_string(
                            "no supported microphone source element found (expected pulsesrc or autoaudiosrc)",
                        ),
                    ),
                )
            }
        },
        AudioRoute::Application(app) => {
            if !el.pulsesrc {
                return AudioStep::Fail(
                    CaptureSetupError::GStreamer(
                        to_owned_string("application route requires pulsesrc but it is unavailable"),
                    ),
                );
            }
            match chain_step("pulsesrc", true, el, to_owned_string(""), false) {
                AudioStep::Fail(e) => AudioStep::Fail(e),
                _ => AudioStep::ResolveMonitor(to_owned_string(app.as_str())),
            }
        },
    }
}

/// The step after PulseAudio was asked for an application's monitor
/// source: record that source, or fall back to the system mix through the
/// portal.
pub fn audio_after_monitor(monitor: &Result<String, String>) -> (r: AudioStep)
    ensures
        match monitor {
            Ok(source) => r matches AudioStep::Ready(p, k) && p@ == pulse_device_pipeline(source@) && !k,
            Err(_) => r == AudioStep::OpenPortal,
        },
{
    match monitor {
        Ok(source) => {
            let escaped = gst_escape_property_value(source.as_str());
            let mut p = to_owned_string("pulsesrc device=\"");
            append_str(&mut p, escaped.as_str());
            append_str(&mut p, "\"");
            append_str(
                &mut p,
                " ! audioconvert ! audioresample ! opusenc bitrate=128000 frame-size=5 ! appsink name=sink max-buffers=4 drop=true sync=false",
            );
            AudioStep::Ready(p, false)
        },
        Err(_) => AudioStep::OpenPortal,
    }
}

/// The step after the audio portal answered (with a descriptor and node, or
/// an error): record the portal's node, or fall back to PulseAudio, or fail
/// when PulseAudio is missing too.
pub fn audio_after_portal(portal: &Result<(u32, u32), String>, el: &AudioElements) -> (r: AudioStep)
    ensures
        match portal {
            Ok((fd, node)) => audio_chain_step(
                r,
                "pipewiresrc"@,
                el.pipewiresrc,
                *el,
                pipewire_audio_pipeline(*fd, *node),
                true,
            ),
            Err(e) => if el.pulsesrc {
                audio_chain_step(r, "pulsesrc"@, true, *el, "pulsesrc"@ + audio_tail(), false)
            } else {
                r matches AudioStep::Fail(CaptureSetupError::PortalUnavailable(m)) && m@
                    == "audio portal failed and pulsesrc unavailable: "@ + e@
            },
        },
{
    match portal {
        Ok((fd, node)) => {
            let mut p = to_owned_string("pipewiresrc fd=");
            append_str(&mut p, decimal_string(*fd as u64).as_str());
            append_str(&mut p, " path=");
            append_str(&mut p, decimal_string(*node as u64).as_str());
            append_str(&mut p, " do-timestamp=true");
            append_str(
                &mut p,
                " ! audioconvert ! audioresample ! opusenc bitrate=128000 frame-size=5 ! appsink name=sink max-buffers=4 drop=true sync=false",
            );
            chain_step("pipewiresrc", el.pipewiresrc, el, p, true)
        },
        Err(e) => {
            if el.pulsesrc {
                chain_step("pulsesrc", true, el, pulse_pipeline(), false)
            } else {
                let mut m = to_owned_string("audio portal failed and pulsesrc unavailable: ");
                append_str(&mut m, e.as_str());
                AudioStep::Fail(CaptureSetupError::PortalUnavailable(m))
            }
        },
    }
}

/// Which GStreamer elements a screen pipeline may use were found.
#[derive(Debug, Clone, Copy, PartialEq, Eq, Structural)]
pub struct VideoElements {
    pub pipewiresrc: bool,
    pub ximagesrc: bool,
    pub videoconvert: bool,
    pub videoscale: bool,
    pub videocrop: bool,
    pub queue: bool,
    pub appsink: bool,
}

/// Frames between key frames: the interval in milliseconds at `fps`
/// frames per second, rounded down, at least 1.
pub open spec fn keyframe_frames(fps: u16, interval_ms: u32) -> int {
    let f = (fps as int) * (interval_ms as int) / 1000;
    if f >= 1 {
        f
    } else {
        1
    }
}

/// See [`keyframe_frames`].
pub fn keyframe_interval_frames(fps: u16, keyframe_interval_ms: u32) -> (r: u32)
    requires
        (fps as int) * (keyframe_interval_ms as int) <= u32::MAX,
    ensures
        r == keyframe_frames(fps, keyframe_interval_ms),
{
    let f = (fps as u32) * keyframe_interval_ms / 1000;
    if f >= 1 {
        f
    } else {
        1
    }
}

/// The debug name of `codec`.
fn codec_name(codec: Codec) -> (r: &'static str)
    ensures
        r@ == codec_debug_name(codec),
{
    match codec {
        Codec::Av1 => "Av1",
        Codec::Hevc => "Hevc",
        Codec::H264 => "H264",
    }
}

/// The elements every screen pipeline needs besides its source, in order.
pub open spec fn video_base() -> Seq<Seq<char>> {
    seq!["videoconvert"@, "queue"@, "appsink"@]
}

/// The checks made before the screencast portal is opened: an encoder for
/// the codec (hardware first; `encoders_found[i]` says whether the `i`-th
/// candidate is installed), its parser, and the converter, queue and sink.
/// On success the encoder, its input format and the parser.
pub fn video_preflight(
    config: &EncodeConfig,
    encoders_found: &Vec<bool>,
    parser_found: bool,
    el: &VideoElements,
) -> (r: Result<(&'static str, &'static str, &'static str), CaptureSetupError>)
    requires
        encoders_found@.len() == hardware_encoders(config.codec).len() + software_encoders(
            config.codec,
        ).len(),
    ensures
        (forall|i: int| 0 <= i < encoders_found@.len() ==> !#[trigger] encoders_found@[i]) ==> (r
            matches Err(CaptureSetupError::Unsupported(m)) && m@ == "missing GStreamer encoder element for "@
            + codec_debug_name(config.codec)),
        (exists|i: int| 0 <= i < encoders_found@.len() && #[trigger] encoders_found@[i]) ==> {
            if !parser_found {
                r matches Err(CaptureSetupError::GStreamer(m)) && m@ == "missing GStreamer parser element: "@
                    + parser_name(config.codec)
            } else if unfound(video_base(), seq![el.videoconvert, el.queue, el.appsink]).len() > 0 {
                r matches Err(CaptureSetupError::GStreamer(m)) && m@ == missing_message(
                    video_base(),
                    seq![el.videoconvert, el.queue, el.appsink],
                )
            } else {
                r matches Ok((enc, fmt, p)) && p@ == parser_name(config.codec) && exists|i: int|
                    0 <= i < encoders_found@.len() && #[trigger] encoders_found@[i] && (forall|j: int|
                        0 <= j < i ==> !encoders_found@[j]) && enc@ == (hardware_encoders(config.codec)
                        + software_encoders(config.codec))[i] && fmt@ == input_format_of(
                        enc@,
                        config.enable_10bit,
                    )
            }
        },
{
    let (enc, fmt) = match select_encoder(config.codec, config.enable_10bit, encoders_found) {
        Some(x) => x,
        None => {
            let mut m = to_owned_string("missing GStreamer encoder element for ");
            append_str(&mut m, codec_name(config.codec));
            return Err(CaptureSetupError::Unsupported(m));
        },
    };
    let parser = match select_parser(config.codec, parser_found) {
        Ok(p) => p,
        Err(m) => return Err(CaptureSetupError::GStreamer(m)),
    };
    let names: Vec<&'static str> = vec!["videoconvert", "queue", "appsink"];
    let found: Vec<bool> = vec![el.videoconvert, el.queue, el.appsink];
    proof {
        assert(str_views(names@) =~= video_base());
        assert(found@ =~= seq![el.videoconvert, el.queue, el.appsink]);
    }
    match require_elements(&names, &found) {
        Ok(()) => Ok((enc, fmt, parser)),
        Err(m) => Err(CaptureSetupError::GStreamer(m)),
    }
}

/// Everything of a screen pipeline after the source and converter: raw
/// video caps, a one-buffer leaky queue, the encoder, the parser and the
/// sink.
pub open spec fn video_tail(
    format: Seq<char>,
    width: u16,
    height: u16,
    fps: u16,
    encoder: Seq<char>,
    parser: Seq<char>,
) -> Seq<char> {
    "video/x-raw,format="@ + format + ",width="@ + decimal(width as nat) + ",height="@ + decimal(
        height as nat,
    ) + ",framerate="@ + decimal(fps as nat) + "/1 ! queue max-size-buffers=1 leaky=downstream ! "@
        + encoder + " name=encoder ! "@ + parser
        + " config-interval=-1 ! appsink name=sink max-buffers=1 drop=true sync=false"@
}

/// The crop stage for an X11 monitor, or nothing.
pub open spec fn crop_text(crop: Option<(u32, u32, u32, u32)>) -> Seq<char> {
    match crop {
        Some((l, r, t, b)) => "videocrop left="@ + decimal(l as nat) + " right="@ + decimal(r as nat)
            + " top="@ + decimal(t as nat) + " bottom="@ + decimal(b as nat) + " ! "@,
        None => Seq::empty(),
    }
}

/// The elements the X11 pipeline needs, in order.
pub open spec fn x11_chain(crop: Option<(u32, u32, u32, u32)>) -> Seq<Seq<char>> {
    seq!["ximagesrc"@, "videoconvert"@, "videoscale"@, "queue"@, "appsink"@] + if crop is Some {
        seq!["videocrop"@]
    } else {
        Seq::empty()
    }
}

/// Which of [`x11_chain`] were found.
pub open spec fn x11_chain_found(crop: Option<(u32, u32, u32, u32)>, el: VideoElements) -> Seq<bool> {
    seq![el.ximagesrc, el.videoconvert, el.videoscale, el.queue, el.appsink] + if crop is Some {
        seq![el.videocrop]
    } else {
        Seq::empty()
    }
}

/// The hint on portal backends for the desktop `desktop`.
pub open spec fn backend_hint(desktop: Option<Seq<char>>) -> Seq<char> {
    "Desktop '"@ + match desktop {
        Some(d) => d,
        None => "unknown desktop"@,
    } + "': expected portal backend(s): "@ + joined(expected_backends(desktop), ", "@)
}

fn push_decimal(s: &mut String, n: u64)
    ensures
        final(s)@ == old(s)@ + decimal(n as nat),
{
    let d = decimal_string(n);
    append_str(s, d.as_str());
}

fn push_video_tail(
    s: &mut String,
    format: &str,
    width: u16,
    height: u16,
    fps: u16,
    encoder: &str,
    parser: &str,
)
    ensures
        final(s)@ == old(s)@ + video_tail(format@, width, height, fps, encoder@, parser@),
{
    append_str(s, "video/x-raw,format=");
    append_str(s, format);
    append_str(s, ",width=");
    push_decimal(s, width as u64);
    append_str(s, ",height=");
    push_decimal(s, height as u64);
    append_str(s, ",framerate=");
    push_decimal(s, fps as u64);
    append_str(s, "/1 ! queue max-size-buffers=1 leaky=downstream ! ");
    append_str(s, encoder);
    append_str(s, " name=encoder ! ");
    append_str(s, parser);
    append_str(s, " config-interval=-1 ! appsink name=sink max-buffers=1 drop=true sync=false");
}

/// The screen pipeline once the screencast portal answered (with a
/// descriptor and node, or an error): the portal's node; else, on Wayland,
/// a portal failure with a hint on backends for `desktop`; else, on X11,
/// an X11 grab, cropped to the monitor when `crop` is given; else a
/// platform error. `true` when the pipeline reads the portal's descriptor.
pub fn video_after_portal(
    config: &EncodeConfig,
    encoder: &str,
    input_format: &str,
    parser: &str,
    portal: &Result<(u32, u32), String>,
    el: &VideoElements,
    wayland: bool,
    x11: bool,
    crop: Option<(u32, u32, u32, u32)>,
    desktop: Option<&str>,
) -> (r: Result<(String, bool), CaptureSetupError>)
    ensures
        ({
            let tail = video_tail(
                input_format@,
                config.resolution.width,
                config.resolution.height,
                config.fps,
                encoder@,
                parser@,
            );
            match portal {
                Ok((fd, node)) => if el.pipewiresrc {
                    r matches Ok((p, k)) && k && p@ == "pipewiresrc fd="@ + decimal(*fd as nat) + " path="@
                        + decimal(*node as nat) + " do-timestamp=true ! videoconvert ! "@ + tail
                } else {
                    r matches Err(CaptureSetupError::GStreamer(m)) && m@ == missing_message(
                        seq!["pipewiresrc"@],
                        seq![false],
                    )
                },
                Err(e) => if wayland {
                    r matches Err(CaptureSetupError::PortalUnavailable(m)) && m@
                        == "Wayland screencast portal failed: "@ + e@
                        + ". Ensure xdg-desktop-portal + a desktop-specific portal backend are running, PipeWire is active, and screen capture permission is granted. "@
                        + backend_hint(opt_chars(desktop))
                } else if x11 {
                    if unfound(x11_chain(crop), x11_chain_found(crop, *el)).len() == 0 {
                        r matches Ok((p, k)) && !k && p@ == "ximagesrc use-damage=0 ! videoconvert ! "@
                            + crop_text(crop) + "videoscale ! "@ + tail
                    } else {
                        r matches Err(CaptureSetupError::GStreamer(m)) && m@ == missing_message(
                            x11_chain(crop),
                            x11_chain_found(crop, *el),
                        )
                    }
                } else {
                    r matches Err(CaptureSetupError::Platform(m)) && m@ == e@
                },
            }
        }),
{
    match portal {
        Ok((fd, node)) => {
            let names: Vec<&'static str> = vec!["pipewiresrc"];
            let found: Vec<bool> = vec![el.pipewiresrc];
            proof {
                assert(str_views(names@) =~= seq!["pipewiresrc"@]);
            }
            if let Err(m) = require_elements(&names, &found) {
                proof {
                    reveal_with_fuel(unfound, 2);
                    assert(str_views(names@).drop_last() =~= Seq::<Seq<char>>::empty());
                    assert(found@.drop_last() =~= Seq::<bool>::empty());
                    assert(!el.pipewiresrc);
                    assert(found@ =~= seq![false]);
                }
                return Err(CaptureSetupError::GStreamer(m));
            }
            proof {
                if !el.pipewiresrc {
                    assert(found@ =~= seq![false]);
                    reveal_with_fuel(unfound, 2);
                    assert(unfound(seq!["pipewiresrc"@], seq![false]).len() == 1);
                }
            }
            let mut p = to_owned_string("pipewiresrc fd=");
            push_decimal(&mut p, *fd as u64);
            append_str(&mut p, " path=");
            push_decimal(&mut p, *node as u64);
            append_str(&mut p, " do-timestamp=true ! videoconvert ! ");
            push_video_tail(
                &mut p,
                input_format,
                config.resolution.width,
                config.resolution.height,
                config.fps,
                encoder,
                parser,
            );
            Ok((p, true))
        },
        Err(e) => {
            if wayland {
                let hint = portal_backend_hint_message(desktop);
                let mut m = to_owned_string("Wayland screencast portal failed: ");
                append_str(&mut m, e.as_str());
                append_str(
                    &mut m,
                    ". Ensure xdg-desktop-portal + a desktop-specific portal backend are running, PipeWire is active, and screen capture permission is granted. ",
                );
                append_str(&mut m, hint.as_str());
                return Err(CaptureSetupError::PortalUnavailable(m));
            }
            if !x11 {
                return Err(CaptureSetupError::Platform(to_owned_string(e.as_str())));
            }
            let mut names: Vec<&'static str> = vec!["ximagesrc", "videoconvert", "videoscale", "queue", "appsink"];
            let mut found: Vec<bool> = vec![el.ximagesrc, el.videoconvert, el.videoscale, el.queue, el.appsink];
            if crop.is_some() {
                names.push("videocrop");
                found.push(el.videocrop);
            }
            proof {
                assert(str_views(names@) =~= x11_chain(crop));
                assert(found@ =~= x11_chain_found(crop, *el));
            }
            if let Err(m) = require_elements(&names, &found) {
                return Err(CaptureSetupError::GStreamer(m));
            }
            let mut p = to_owned_string("ximagesrc use-damage=0 ! videoconvert ! ");
            if let Some((l, r, t, b)) = crop {
                append_str(&mut p, "videocrop left=");
                push_decimal(&mut p, l as u64);
                append_str(&mut p, " right=");
                push_decimal(&mut p, r as u64);
                append_str(&mut p, " top=");
                push_decimal(&mut p, t as u64);
                append_str(&mut p, " bottom=");
                push_decimal(&mut p, b as u64);
                append_str(&mut p, " ! ");
            }
            append_str(&mut p, "videoscale ! ");
            push_video_tail(
                &mut p,
                input_format,
                config.resolution.width,
                config.resolution.height,
                config.fps,
                encoder,
                parser,
            );
            Ok((p, false))
        },
    }
}

} // verus!
