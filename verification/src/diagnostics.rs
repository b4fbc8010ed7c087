//! The runtime report of a Linux capture host: from what was probed (display
//! servers, desktop, portal descriptors, GStreamer elements, services), the
//! expected and missing pieces, and what to install or start.

use vstd::prelude::*;
use crate::media::Codec;
use crate::portal::{
    str_views, joined, join_strs, expected_backends, expected_portal_backends_from_desktop,
    descriptor_of, backend_to_portal_descriptor, portal_backend_hint_message, hardware_encoders,
    software_encoders, hardware_encoder_candidates, software_encoder_candidates,
};
use crate::text::{str_equal, string_views, to_owned_string, append_str};
use crate::security::opt_chars;
use crate::auth_flow::ov;

verus! {

/// What was found on the host.
pub struct RuntimeProbe {
    pub wayland_display: bool,
    pub x11_display: bool,
    /// The desktop named by the environment (trimmed, absent when blank).
    pub xdg_current_desktop: Option<String>,
    /// The known portal descriptors found installed.
    pub available_portal_descriptors: Vec<String>,
    /// The GStreamer elements found, among [`probed_elements`].
    pub available_elements: Vec<String>,
    pub compositor_name: Option<String>,
    pub pipewire_running: bool,
    pub portal_service_running: bool,
}

/// The report on a Linux capture host.
#[derive(Debug, Clone, PartialEq, Eq)]
pub struct LinuxRuntimeDiagnostics {
    pub session_type: String,
    pub wayland_display: bool,
    pub x11_display: bool,
    pub xdg_current_desktop: Option<String>,
    pub expected_portal_backends: Vec<String>,
    pub expected_portal_descriptors: Vec<String>,
    pub available_portal_descriptors: Vec<String>,
    pub missing_expected_portal_descriptors: Vec<String>,
    pub required_video_source: String,
    pub required_video_source_available: bool,
    pub available_audio_sources: Vec<String>,
    pub available_h264_encoders: Vec<String>,
    pub available_hevc_encoders: Vec<String>,
    pub available_av1_encoders: Vec<String>,
    pub missing_gstreamer_elements: Vec<String>,
    pub recommendations: Vec<String>,
    pub compositor_name: Option<String>,
    pub pipewire_running: bool,
    pub portal_service_running: bool,
}

/// The names of `names` for which `p` holds, in order.
pub open spec fn keep_where(names: Seq<Seq<char>>, p: spec_fn(Seq<char>) -> bool) -> Seq<Seq<char>>
    decreases names.len(),
{
    if names.len() == 0 {
        seq![]
    } else if p(names.last()) {
        keep_where(names.drop_last(), p).push(names.last())
    } else {
        keep_where(names.drop_last(), p)
    }
}

/// Whether a name is among `names`.
pub open spec fn listed_in(names: Seq<Seq<char>>) -> spec_fn(Seq<char>) -> bool {
    |n: Seq<char>| names.contains(n)
}

/// Whether a name is not among `names`.
pub open spec fn not_listed_in(names: Seq<Seq<char>>) -> spec_fn(Seq<char>) -> bool {
    |n: Seq<char>| !names.contains(n)
}

/// The portal descriptors of the backends that have one, in order.
pub open spec fn descriptors_for(backends: Seq<Seq<char>>) -> Seq<Seq<char>>
    decreases backends.len(),
{
    if backends.len() == 0 {
        seq![]
    } else {
        match descriptor_of(backends.last()) {
            Some(d) => descriptors_for(backends.drop_last()).push(d),
            None => descriptors_for(backends.drop_last()),
        }
    }
}

/// The video source element the session needs ("none" without a display).
pub open spec fn required_source(wayland: bool, x11: bool) -> Seq<char> {
    if wayland {
        "pipewiresrc"@
    } else if x11 {
        "ximagesrc"@
    } else {
        "none"@
    }
}

/// The elements every capture pipeline needs.
pub open spec fn base_elements() -> Seq<Seq<char>> {
    seq![
        "videoconvert"@,
        "videoscale"@,
        "queue"@,
        "appsink"@,
        "audioconvert"@,
        "audioresample"@,
        "opusenc"@,
    ]
}

/// Every element that can be reported missing, in alphabetical order.
pub open spec fn element_order() -> Seq<Seq<char>> {
    seq![
        "appsink"@,
        "audioconvert"@,
        "audioresample"@,
        "opusenc"@,
        "pipewiresrc"@,
        "queue"@,
        "videoconvert"@,
        "videocrop"@,
        "videoscale"@,
        "ximagesrc"@,
    ]
}

/// Whether an element is needed and was not found: one of the base
/// elements, the session's video source, or the cropper on X11.
pub open spec fn element_missing(elements: Seq<Seq<char>>, wayland: bool, x11: bool) -> spec_fn(Seq<char>) -> bool {
    |n: Seq<char>|
        !elements.contains(n) && (base_elements().contains(n) || n == required_source(wayland, x11) || (
        n == "videocrop"@ && x11))
}

/// The audio source elements, in order of preference.
pub open spec fn audio_sources() -> Seq<Seq<char>> {
    seq!["pipewiresrc"@, "pulsesrc"@, "autoaudiosrc"@]
}

/// The encoders for `codec` that were found: hardware first.
pub open spec fn found_encoders(elements: Seq<Seq<char>>, codec: Codec) -> Seq<Seq<char>> {
    keep_where(hardware_encoders(codec) + software_encoders(codec), listed_in(elements))
}

/// `s` with `t` added when `c` holds.
pub open spec fn push_if(s: Seq<Seq<char>>, c: bool, t: Seq<char>) -> Seq<Seq<char>> {
    if c {
        s.push(t)
    } else {
        s
    }
}

/// The advice of the report, in order.
pub open spec fn advice(
    wayland: bool,
    desktop: Option<Seq<char>>,
    hint: Seq<char>,
    missing_descriptors: Seq<Seq<char>>,
    source: Seq<char>,
    source_available: bool,
    audio: Seq<Seq<char>>,
    h264: Seq<Seq<char>>,
    hevc: Seq<Seq<char>>,
    av1: Seq<Seq<char>>,
    missing_elements: Seq<Seq<char>>,
    pipewire_running: bool,
    portal_running: bool,
) -> Seq<Seq<char>> {
    let a = push_if(seq![], wayland, "Validate portal backend availability. "@ + hint);
    let b = push_if(
        a,
        wayland && missing_descriptors.len() > 0,
        "Install missing portal backend descriptor(s): "@ + joined(missing_descriptors, ", "@),
    );
    let c = push_if(b, !source_available, "Install missing GStreamer video source plugin: "@ + source);
    let d = push_if(
        c,
        audio.len() == 0,
        "Install an audio source plugin (pipewiresrc, pulsesrc, or autoaudiosrc)."@,
    );
    let e = push_if(
        d,
        h264.len() == 0,
        "Install at least one H264 encoder plugin (x264enc, openh264enc, VAAPI, NVENC, or V4L2)."@,
    );
    let f = push_if(
        e,
        hevc.len() == 0,
        "HEVC/H.265 encoders not available. Install x265enc, vaapih265enc, nvh265enc, or v4l2h265enc for better compression."@,
    );
    let g = push_if(
        f,
        av1.len() == 0,
        "AV1 encoders not available. Install svtav1enc, vaapav1enc, or nvav1enc for best compression efficiency."@,
    );
    let h = push_if(
        g,
        missing_elements.len() > 0,
        "Install missing GStreamer elements: "@ + joined(missing_elements, ", "@),
    );
    let i = push_if(
        h,
        wayland && !pipewire_running,
        "PipeWire service is not running. Start it with 'systemctl --user start pipewire'."@,
    );
    push_if(
        i,
        wayland && !portal_running,
        "xdg-desktop-portal service is not running. Start it or install the portal backend for your desktop environment."@,
    )
}

/// Whether `name` is among the strings of `list`.
fn has_name(list: &Vec<String>, name: &str) -> (b: bool)
    ensures
        b == string_views(list@).contains(name@),
{
    let mut i: usize = 0;
    while i < list.len()
        invariant
            i <= list@.len(),
            forall|k: int| 0 <= k < i ==> #[trigger] list@[k]@ != name@,
        decreases list.len() - i,
    {
        if str_equal(list[i].as_str(), name) {
            assert(string_views(list@)[i as int] == name@);
            return true;
        }
        i = i + 1;
    }
    proof {
        if string_views(list@).contains(name@) {
            let k = choose|k: int| 0 <= k < string_views(list@).len() && string_views(list@)[k] == name@;
            assert(list@[k]@ == name@);
        }
    }
    false
}

/// Whether `name` is among `list`.
fn has_str(list: &Vec<&'static str>, name: &str) -> (b: bool)
    ensures
        b == str_views(list@).contains(name@),
{
    let mut i: usize = 0;
    while i < list.len()
        invariant
            i <= list@.len(),
            forall|k: int| 0 <= k < i ==> #[trigger] list@[k]@ != name@,
        decreases list.len() - i,
    {
        if str_equal(list[i], name) {
            assert(str_views(list@)[i as int] == name@);
            return true;
        }
        i = i + 1;
    }
    proof {
        if str_views(list@).contains(name@) {
            let k = choose|k: int| 0 <= k < str_views(list@).len() && str_views(list@)[k] == name@;
            assert(list@[k]@ == name@);
        }
    }
    false
}

/// The names of `names` found (or, with `found == false`, not found) among
/// `list`, in order.
fn keep_by_presence(names: &Vec<&'static str>, list: &Vec<String>, found: bool) -> (r: Vec<&'static str>)
    ensures
        str_views(r@) == keep_where(
            str_views(names@),
            if found {
                listed_in(string_views(list@))
            } else {
                not_listed_in(string_views(list@))
            },
        ),
{
    let ghost p = if found {
        listed_in(string_views(list@))
    } else {
        not_listed_in(string_views(list@))
    };
    let mut r: Vec<&'static str> = Vec::new();
    let mut i: usize = 0;
    while i < names.len()
        invariant
            i <= names@.len(),
            p == (if found {
                listed_in(string_views(list@))
            } else {
                not_listed_in(string_views(list@))
            }),
            str_views(r@) == keep_where(str_views(names@.subrange(0, i as int)), p),
        decreases names.len() - i,
    {
        proof {
            let t = str_views(names@.subrange(0, i + 1));
            assert(t.drop_last() =~= str_views(names@.subrange(0, i as int)));
            assert(t.last() == names@[i as int]@);
        }
        let present = has_name(list, names[i]);
        if present == found {
            let ghost before = r@;
            r.push(names[i]);
            proof {
                assert(str_views(r@) =~= str_views(before).push(names@[i as int]@));
            }
        }
        i = i + 1;
    }
    proof {
        assert(names@.subrange(0, names@.len() as int) =~= names@);
    }
    r
}

/// The portal descriptors of the backends that have one.
fn descriptors_of_backends(backends: &Vec<&'static str>) -> (r: Vec<&'static str>)
    ensures
        str_views(r@) == descriptors_for(str_views(backends@)),
{
    let mut r: Vec<&'static str> = Vec::new();
    let mut i: usize = 0;
    while i < backends.len()
        invariant
            i <= backends@.len(),
            str_views(r@) == descriptors_for(str_views(backends@.subrange(0, i as int))),
        decreases backends.len() - i,
    {
        proof {
            let t = str_views(backends@.subrange(0, i + 1));
            assert(t.drop_last() =~= str_views(backends@.subrange(0, i as int)));
            assert(t.last() == backends@[i as int]@);
        }
        match backend_to_portal_descriptor(backends[i]) {
            Some(d) => {
                let ghost before = r@;
                r.push(d);
                proof {
                    assert(str_views(r@) =~= str_views(before).push(d@));
                }
            },
            None => {},
        }
        i = i + 1;
    }
    proof {
        assert(backends@.subrange(0, backends@.len() as int) =~= backends@);
    }
    r
}

/// Owned copies of static strings.
fn owned(v: &Vec<&'static str>) -> (r: Vec<String>)
    ensures
        string_views(r@) == str_views(v@),
{
    let mut r: Vec<String> = Vec::new();
    let mut i: usize = 0;
    while i < v.len()
        invariant
            i <= v@.len(),
            r@.len() == i,
            forall|k: int| 0 <= k < i ==> (#[trigger] r@[k])@ == v@[k]@,
        decreases v.len() - i,
    {
        r.push(to_owned_string(v[i]));
        i = i + 1;
    }
    proof {
        assert(string_views(r@) =~= str_views(v@));
    }
    r
}

/// A copy of a list of strings.
fn copy_names(v: &Vec<String>) -> (r: Vec<String>)
    ensures
        string_views(r@) == string_views(v@),
{
    let mut r: Vec<String> = Vec::new();
    let mut i: usize = 0;
    while i < v.len()
        invariant
            i <= v@.len(),
            r@.len() == i,
            forall|k: int| 0 <= k < i ==> (#[trigger] r@[k])@ == v@[k]@,
        decreases v.len() - i,
    {
        r.push(v[i].clone());
        i = i + 1;
    }
    proof {
        assert(string_views(r@) =~= string_views(v@));
    }
    r
}

/// The encoders for `codec` found among `elements`: hardware first.
fn available_encoders(codec: Codec, elements: &Vec<String>) -> (r: Vec<&'static str>)
    ensures
        str_views(r@) == found_encoders(string_views(elements@), codec),
{
    let mut all = hardware_encoder_candidates(codec);
    let mut soft = software_encoder_candidates(codec);
    let ghost h = all@;
    let ghost s = soft@;
    all.append(&mut soft);
    proof {
        assert(str_views(all@) =~= hardware_encoders(codec) + software_encoders(codec)) by {
            assert(all@ =~= h + s);
        }
    }
    keep_by_presence(&all, elements, true)
}

/// Every GStreamer element the report asks about.
pub fn probed_elements() -> (r: Vec<&'static str>)
    ensures
        forall|n: Seq<char>| element_order().contains(n) ==> str_views(r@).contains(n),
        forall|n: Seq<char>| audio_sources().contains(n) ==> str_views(r@).contains(n),
{
    let r = vec![
        "appsink",
        "audioconvert",
        "audioresample",
        "opusenc",
        "pipewiresrc",
        "queue",
        "videoconvert",
        "videocrop",
        "videoscale",
        "ximagesrc",
        "pulsesrc",
        "autoaudiosrc",
    ];
    proof {
        let v = str_views(r@);
        assert forall|n: Seq<char>| element_order().contains(n) implies v.contains(n) by {
            let k = choose|k: int| 0 <= k < element_order().len() && element_order()[k] == n;
            assert(v[k] == element_order()[k]);
        }
        assert forall|n: Seq<char>| audio_sources().contains(n) implies v.contains(n) by {
            let k = choose|k: int| 0 <= k < audio_sources().len() && audio_sources()[k] == n;
            if k == 0 {
                assert(v[4] == n);
            } else if k == 1 {
                assert(v[10] == n);
            } else {
                assert(v[11] == n);
            }
        }
    }
    r
}

/// Adds `t` to the advice when `c` holds.
fn push_when(recs: &mut Vec<String>, c: bool, t: String)
    ensures
        string_views(final(recs)@) == push_if(string_views(old(recs)@), c, t@),
{
    if c {
        let ghost before = recs@;
        recs.push(t);
        proof {
            assert(string_views(recs@) =~= string_views(before).push(t@));
        }
    }
}

/// `prefix` followed by `rest`.
fn text_then(prefix: &str, rest: &str) -> (r: String)
    ensures
        r@ == prefix@ + rest@,
{
    let mut r = to_owned_string(prefix);
    append_str(&mut r, rest);
    r
}

/// The needed elements that were not found, in alphabetical order.
fn missing_elements(elements: &Vec<String>, wayland: bool, x11: bool) -> (r: Vec<&'static str>)
    ensures
        str_views(r@) == keep_where(element_order(), element_missing(string_views(elements@), wayland, x11)),
{
    let order = vec![
        "appsink",
        "audioconvert",
        "audioresample",
        "opusenc",
        "pipewiresrc",
        "queue",
        "videoconvert",
        "videocrop",
        "videoscale",
        "ximagesrc",
    ];
    let base = vec!["videoconvert", "videoscale", "queue", "appsink", "audioconvert", "audioresample", "opusenc"];
    let source = if wayland {
        "pipewiresrc"
    } else if x11 {
        "ximagesrc"
    } else {
        "none"
    };
    assert(str_views(order@) =~= element_order());
    assert(str_views(base@) =~= base_elements());
    assert(source@ == required_source(wayland, x11));
    let ghost p = element_missing(string_views(elements@), wayland, x11);
    let mut r: Vec<&'static str> = Vec::new();
    let mut i: usize = 0;
    while i < order.len()
        invariant
            i <= order@.len(),
            str_views(order@) == element_order(),
            str_views(base@) == base_elements(),
            source@ == required_source(wayland, x11),
            p == element_missing(string_views(elements@), wayland, x11),
            str_views(r@) == keep_where(str_views(order@.subrange(0, i as int)), p),
        decreases order.len() - i,
    {
        proof {
            let t = str_views(order@.subrange(0, i + 1));
            assert(t.drop_last() =~= str_views(order@.subrange(0, i as int)));
            assert(t.last() == order@[i as int]@);
        }
        let n = order[i];
        let missing = !has_name(elements, n) && (has_str(&base, n) || str_equal(n, source) || (str_equal(
            n,
            "videocrop",
        ) && x11));
        assert(missing == p(n@));
        if missing {
            let ghost before = r@;
            r.push(n);
            proof {
                assert(str_views(r@) =~= str_views(before).push(n@));
            }
        }
        i = i + 1;
    }
    proof {
        assert(order@.subrange(0, order@.len() as int) =~= order@);
    }
    r
}

/// The report for what was probed: the session type; the portal backends
/// and descriptors the desktop calls for, and those missing; the video
/// source the session needs and whether it was found; the audio sources and
/// encoders found; the missing elements; and the advice, in order.
pub fn runtime_diagnostics(probe: RuntimeProbe) -> (r: LinuxRuntimeDiagnostics)
    ensures
        ({
            let w = probe.wayland_display;
            let x = probe.x11_display;
            let desktop = ov(probe.xdg_current_desktop);
            let elements = string_views(probe.available_elements@);
            let backends = expected_backends(desktop);
            let descs = descriptors_for(backends);
            let missing_descs = keep_where(descs, not_listed_in(string_views(probe.available_portal_descriptors@)));
            let source = required_source(w, x);
            let source_ok = source == "none"@ || elements.contains(source);
            let audio = keep_where(audio_sources(), listed_in(elements));
            let h264 = found_encoders(elements, Codec::H264);
            let hevc = found_encoders(elements, Codec::Hevc);
            let av1 = found_encoders(elements, Codec::Av1);
            let missing = keep_where(element_order(), element_missing(elements, w, x));
            let hint = "Desktop '"@ + match desktop {
                Some(d) => d,
                None => "unknown desktop"@,
            } + "': expected portal backend(s): "@ + joined(backends, ", "@);
            &&& r.session_type@ == (if w {
                "wayland"@
            } else if x {
                "x11"@
            } else {
                "headless"@
            })
            &&& r.wayland_display == w
            &&& r.x11_display == x
            &&& ov(r.xdg_current_desktop) == desktop
            &&& string_views(r.expected_portal_backends@) == backends
            &&& string_views(r.expected_portal_descriptors@) == descs
            &&& string_views(r.available_portal_descriptors@) == string_views(probe.available_portal_descriptors@)
            &&& string_views(r.missing_expected_portal_descriptors@) == missing_descs
            &&& r.required_video_source@ == source
            &&& r.required_video_source_available == source_ok
            &&& string_views(r.available_audio_sources@) == audio
            &&& string_views(r.available_h264_encoders@) == h264
            &&& string_views(r.available_hevc_encoders@) == hevc
            &&& string_views(r.available_av1_encoders@) == av1
            &&& string_views(r.missing_gstreamer_elements@) == missing
            &&& string_views(r.recommendations@) == advice(
                w,
                desktop,
                hint,
                missing_descs,
                source,
                source_ok,
                audio,
                h264,
                hevc,
                av1,
                missing,
                probe.pipewire_running,
                probe.portal_service_running,
            )
            &&& ov(r.compositor_name) == ov(probe.compositor_name)
            &&& r.pipewire_running == probe.pipewire_running
            &&& r.portal_service_running == probe.portal_service_running
        }),
{
    let w = probe.wayland_display;
    let x = probe.x11_display;
    let desktop: Option<&str> = match &probe.xdg_current_desktop {
        Some(d) => Some(d.as_str()),
        None => None,
    };
    assert(opt_chars(desktop) == ov(probe.xdg_current_desktop));
    let session_type = if w {
        to_owned_string("wayland")
    } else if x {
        to_owned_string("x11")
    } else {
        to_owned_string("headless")
    };
    let backends = expected_portal_backends_from_desktop(desktop);
    let descs = descriptors_of_backends(&backends);
    let missing_descs = keep_by_presence(&descs, &probe.available_portal_descriptors, false);
    let source: &'static str = if w {
        "pipewiresrc"
    } else if x {
        "ximagesrc"
    } else {
        "none"
    };
    let source_ok = str_equal(source, "none") || has_name(&probe.available_elements, source);
    let audio_candidates = vec!["pipewiresrc", "pulsesrc", "autoaudiosrc"];
    assert(str_views(audio_candidates@) =~= audio_sources());
    let audio = keep_by_presence(&audio_candidates, &probe.available_elements, true);
    let h264 = available_encoders(Codec::H264, &probe.available_elements);
    let hevc = available_encoders(Codec::Hevc, &probe.available_elements);
    let av1 = available_encoders(Codec::Av1, &probe.available_elements);
    let missing = missing_elements(&probe.available_elements, w, x);
    let hint = portal_backend_hint_message(desktop);
    let mut recs: Vec<String> = Vec::new();
    assert(string_views(recs@) =~= Seq::<Seq<char>>::empty());
    push_when(&mut recs, w, text_then("Validate portal backend availability. ", hint.as_str()));
    let descs_list = join_strs(&missing_descs, ", ");
    push_when(
        &mut recs,
        w && missing_descs.len() > 0,
        text_then("Install missing portal backend descriptor(s): ", descs_list.as_str()),
    );
    push_when(&mut recs, !source_ok, text_then("Install missing GStreamer video source plugin: ", source));
    push_when(
        &mut recs,
        audio.len() == 0,
        to_owned_string("Install an audio source plugin (pipewiresrc, pulsesrc, or autoaudiosrc)."),
    );
    push_when(
        &mut recs,
        h264.len() == 0,
        to_owned_string(
            "Install at least one H264 encoder plugin (x264enc, openh264enc, VAAPI, NVENC, or V4L2).",
        ),
    );
    push_when(
        &mut recs,
        hevc.len() == 0,
        to_owned_string(
            "HEVC/H.265 encoders not available. Install x265enc, vaapih265enc, nvh265enc, or v4l2h265enc for better compression.",
        ),
    );
    push_when(
        &mut recs,
        av1.len() == 0,
        to_owned_string(
            "AV1 encoders not available. Install svtav1enc, vaapav1enc, or nvav1enc for best compression efficiency.",
        ),
    );
    let missing_list = join_strs(&missing, ", ");
    push_when(
        &mut recs,
        missing.len() > 0,
        text_then("Install missing GStreamer elements: ", missing_list.as_str()),
    );
    push_when(
        &mut recs,
        w && !probe.pipewire_running,
        to_owned_string("PipeWire service is not running. Start it with 'systemctl --user start pipewire'."),
    );
    push_when(
        &mut recs,
        w && !probe.portal_service_running,
        to_owned_string(
            "xdg-desktop-portal service is not running. Start it or install the portal backend for your desktop environment.",
        ),
    );
    LinuxRuntimeDiagnostics {
        session_type,
        wayland_display: w,
        x11_display: x,
        xdg_current_desktop: probe.xdg_current_desktop,
        expected_portal_backends: owned(&backends),
        expected_portal_descriptors: owned(&descs),
        available_portal_descriptors: copy_names(&probe.available_portal_descriptors),
        missing_expected_portal_descriptors: owned(&missing_descs),
        required_video_source: to_owned_string(source),
        required_video_source_available: source_ok,
        available_audio_sources: owned(&audio),
        available_h264_encoders: owned(&h264),
        available_hevc_encoders: owned(&hevc),
        available_av1_encoders: owned(&av1),
        missing_gstreamer_elements: owned(&missing),
        recommendations: recs,
        compositor_name: probe.compositor_name,
        pipewire_running: probe.pipewire_running,
        portal_service_running: probe.portal_service_running,
    }
}

} // verus!
