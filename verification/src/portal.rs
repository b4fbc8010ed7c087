//! Which desktop portal backends to expect on a Linux desktop, and which
//! GStreamer elements to use for each codec.

use vstd::prelude::*;
use crate::media::Codec;
use crate::text::{ascii_lower, contains_sub, trim_ws, str_equal, contains_str, append_str, to_owned_string};

verus! {

/// The character sequences of a list of static strings.
pub open spec fn str_views(v: Seq<&'static str>) -> Seq<Seq<char>> {
    v.map_values(|s: &'static str| s@)
}

/// Every portal backend, in the order they are suggested when the desktop is
/// unknown.
pub open spec fn all_backends() -> Seq<Seq<char>> {
    seq![
        "xdg-desktop-portal-kde"@,
        "xdg-desktop-portal-gnome"@,
        "xdg-desktop-portal-wlr"@,
        "xdg-desktop-portal-gtk"@,
    ]
}

/// The portal backends expected on the desktop named `desktop`.
pub open spec fn expected_backends(desktop: Option<Seq<char>>) -> Seq<Seq<char>> {
    match desktop {
        None => all_backends(),
        Some(d) => {
            let n = ascii_lower(d);
            if contains_sub(n, "kde"@) || contains_sub(n, "plasma"@) {
                seq!["xdg-desktop-portal-kde"@, "xdg-desktop-portal-gtk"@]
            } else if contains_sub(n, "gnome"@) || contains_sub(n, "unity"@) || contains_sub(
                n,
                "cinnamon"@,
            ) || contains_sub(n, "pantheon"@) {
                seq!["xdg-desktop-portal-gnome"@, "xdg-desktop-portal-gtk"@]
            } else if contains_sub(n, "hyprland"@) {
                seq![
                    "xdg-desktop-portal-hyprland"@,
                    "xdg-desktop-portal-wlr"@,
                    "xdg-desktop-portal-gtk"@,
                ]
            } else if contains_sub(n, "sway"@) || contains_sub(n, "wlroots"@) || contains_sub(
                n,
                "river"@,
            ) || contains_sub(n, "wayfire"@) {
                seq!["xdg-desktop-portal-wlr"@, "xdg-desktop-portal-gtk"@]
            } else {
                all_backends()
            }
        },
    }
}

/// The portal backends expected on the desktop named `desktop`
/// (`XDG_CURRENT_DESKTOP`), most specific first.
pub fn expected_portal_backends_from_desktop(desktop: Option<&str>) -> (r: Vec<&'static str>)
    ensures
        str_views(r@) == expected_backends(crate::security::opt_chars(desktop)),
{
    let r: Vec<&'static str> = match desktop {
        None => vec![
            "xdg-desktop-portal-kde",
            "xdg-desktop-portal-gnome",
            "xdg-desktop-portal-wlr",
            "xdg-desktop-portal-gtk",
        ],
        Some(d) => {
            let lower = crate::text::to_ascii_lower(d);
            let n = lower.as_str();
            if contains_str(n, "kde") || contains_str(n, "plasma") {
                vec!["xdg-desktop-portal-kde", "xdg-desktop-portal-gtk"]
            } else if contains_str(n, "gnome") || contains_str(n, "unity") || contains_str(
                n,
                "cinnamon",
            ) || contains_str(n, "pantheon") {
                vec!["xdg-desktop-portal-gnome", "xdg-desktop-portal-gtk"]
            } else if contains_str(n, "hyprland") {
                vec!["xdg-desktop-portal-hyprland", "xdg-desktop-portal-wlr", "xdg-desktop-portal-gtk"]
            } else if contains_str(n, "sway") || contains_str(n, "wlroots") || contains_str(
                n,
                "river",
            ) || contains_str(n, "wayfire") {
                vec!["xdg-desktop-portal-wlr", "xdg-desktop-portal-gtk"]
            } else {
                vec![
                    "xdg-desktop-portal-kde",
                    "xdg-desktop-portal-gnome",
                    "xdg-desktop-portal-wlr",
                    "xdg-desktop-portal-gtk",
                ]
            }
        },
    };
    proof {
        assert(str_views(r@) =~= expected_backends(crate::security::opt_chars(desktop)));
    }
    r
}

/// The portal descriptor file of a backend.
pub open spec fn descriptor_of(backend: Seq<char>) -> Option<Seq<char>> {
    if backend == "xdg-desktop-portal-kde"@ {
        Some("kde.portal"@)
    } else if backend == "xdg-desktop-portal-gnome"@ {
        Some("gnome.portal"@)
    } else if backend == "xdg-desktop-portal-wlr"@ {
        Some("wlr.portal"@)
    } else if backend == "xdg-desktop-portal-hyprland"@ {
        Some("hyprland.portal"@)
    } else if backend == "xdg-desktop-portal-gtk"@ {
        Some("gtk.portal"@)
    } else {
        None
    }
}

/// The descriptor file that a portal backend installs, if it is a known one.
pub fn backend_to_portal_descriptor(backend: &str) -> (r: Option<&'static str>)
    ensures
        match r {
            Some(d) => descriptor_of(backend@) == Some(d@),
            None => descriptor_of(backend@) is None,
        },
{
    if str_equal(backend, "xdg-desktop-portal-kde") {
        Some("kde.portal")
    } else if str_equal(backend, "xdg-desktop-portal-gnome") {
        Some("gnome.portal")
    } else if str_equal(backend, "xdg-desktop-portal-wlr") {
        Some("wlr.portal")
    } else if str_equal(backend, "xdg-desktop-portal-hyprland") {
        Some("hyprland.portal")
    } else if str_equal(backend, "xdg-desktop-portal-gtk") {
        Some("gtk.portal")
    } else {
        None
    }
}

/// The descriptor files of all known portal backends.
pub fn known_portal_descriptors() -> (r: Vec<&'static str>)
    ensures
        str_views(r@) == seq![
            "kde.portal"@,
            "gnome.portal"@,
            "wlr.portal"@,
            "hyprland.portal"@,
            "gtk.portal"@,
        ],
{
    let r = vec!["kde.portal", "gnome.portal", "wlr.portal", "hyprland.portal", "gtk.portal"];
    proof {
        assert(str_views(r@) =~= seq![
            "kde.portal"@,
            "gnome.portal"@,
            "wlr.portal"@,
            "hyprland.portal"@,
            "gtk.portal"@,
        ]);
    }
    r
}

/// The desktop name from the setting's text: trimmed, absent when blank.
pub fn desktop_from_setting(value: Option<&str>) -> (r: Option<String>)
    ensures
        match r {
            Some(d) => value is Some && d@ == trim_ws(value->0@) && d@.len() > 0,
            None => value is None || trim_ws(value->0@).len() == 0,
        },
{
    match value {
        None => None,
        Some(v) => {
            let t = crate::text::trim(v);
            if t.as_str().is_empty() {
                None
            } else {
                Some(t)
            }
        },
    }
}

/// The pieces joined with `sep` between them.
pub open spec fn joined(pieces: Seq<Seq<char>>, sep: Seq<char>) -> Seq<char>
    decreases pieces.len(),
{
    if pieces.len() == 0 {
        Seq::empty()
    } else if pieces.len() == 1 {
        pieces[0]
    } else {
        joined(pieces.drop_last(), sep) + sep + pieces.last()
    }
}

/// The strings of `v` joined with `sep`.
pub fn join_strs(v: &Vec<&'static str>, sep: &str) -> (r: String)
    ensures
        r@ == joined(str_views(v@), sep@),
{
    let mut r = String::new();
    let mut i: usize = 0;
    while i < v.len()
        invariant
            i <= v@.len(),
            r@ == joined(str_views(v@.take(i as int)), sep@),
        decreases v@.len() - i,
    {
        proof {
            assert(str_views(v@.take(i + 1)).drop_last() =~= str_views(v@.take(i as int)));
            assert(str_views(v@.take(i + 1)).last() == v@[i as int]@);
        }
        if i > 0 {
            append_str(&mut r, sep);
        } else {
            proof {
                assert(str_views(v@.take(1)) =~= seq![v@[0]@]);
            }
        }
        append_str(&mut r, v[i]);
        proof {
            if i == 0 {
                assert(r@ =~= Seq::<char>::empty() + v@[0]@);
            }
        }
        i = i + 1;
    }
    proof {
        assert(v@.take(v@.len() as int) =~= v@);
    }
    r
}

/// The hint printed when no portal backend answers.
pub fn portal_backend_hint_message(desktop: Option<&str>) -> (r: String)
    ensures
        r@ == "Desktop '"@ + match desktop {
            Some(d) => d@,
            None => "unknown desktop"@,
        } + "': expected portal backend(s): "@ + joined(
            expected_backends(crate::security::opt_chars(desktop)),
            ", "@,
        ),
{
    let expected = expected_portal_backends_from_desktop(desktop);
    let list = join_strs(&expected, ", ");
    let mut r = to_owned_string("Desktop '");
    match desktop {
        Some(d) => append_str(&mut r, d),
        None => append_str(&mut r, "unknown desktop"),
    }
    append_str(&mut r, "': expected portal backend(s): ");
    append_str(&mut r, list.as_str());
    r
}

/// A portal stream dimension as a frame dimension: clamped to 1..=65535.
pub fn clamp_portal_dim(dim: i32) -> (r: u16)
    ensures
        r == (if dim < 1 {
            1
        } else if dim > 65535 {
            65535
        } else {
            dim
        }),
{
    if dim < 1 {
        1
    } else if dim > 65535 {
        65535
    } else {
        dim as u16
    }
}

/// GStreamer decoders to try for `codec`, in order.
pub fn decoder_candidates(codec: Codec) -> (r: Vec<&'static str>)
    ensures
        str_views(r@) == match codec {
            Codec::H264 => seq!["vaapih264dec"@, "avdec_h264"@, "openh264dec"@],
            Codec::Hevc => seq!["vaapih265dec"@, "avdec_h265"@],
            Codec::Av1 => seq!["vaapav1dec"@, "vaapivav1dec"@, "av1dec"@, "dav1ddec"@],
        },
{
    let r = match codec {
        Codec::H264 => vec!["vaapih264dec", "avdec_h264", "openh264dec"],
        Codec::Hevc => vec!["vaapih265dec", "avdec_h265"],
        Codec::Av1 => vec!["vaapav1dec", "vaapivav1dec", "av1dec", "dav1ddec"],
    };
    proof {
        assert(str_views(r@) =~= match codec {
            Codec::H264 => seq!["vaapih264dec"@, "avdec_h264"@, "openh264dec"@],
            Codec::Hevc => seq!["vaapih265dec"@, "avdec_h265"@],
            Codec::Av1 => seq!["vaapav1dec"@, "vaapivav1dec"@, "av1dec"@, "dav1ddec"@],
        });
    }
    r
}

/// The GStreamer parser element for `codec`.
pub fn parser_for(codec: Codec) -> (r: &'static str)
    ensures
        r@ == match codec {
            Codec::Av1 => "av1parse"@,
            Codec::Hevc => "h265parse"@,
            Codec::H264 => "h264parse"@,
        },
{
    match codec {
        Codec::Av1 => "av1parse",
        Codec::Hevc => "h265parse",
        Codec::H264 => "h264parse",
    }
}

/// The GStreamer caps of an encoded `codec` stream.
pub fn caps_for_codec(codec: Codec) -> (r: &'static str)
    ensures
        r@ == match codec {
            Codec::Av1 => "video/x-av1,stream-format=(string)obu-stream,alignment=(string)tu"@,
            Codec::Hevc => "video/x-h265,stream-format=(string)byte-stream,alignment=(string)au"@,
            Codec::H264 => "video/x-h264,stream-format=(string)byte-stream,alignment=(string)au"@,
        },
{
    match codec {
        Codec::Av1 => "video/x-av1,stream-format=(string)obu-stream,alignment=(string)tu",
        Codec::Hevc => "video/x-h265,stream-format=(string)byte-stream,alignment=(string)au",
        Codec::H264 => "video/x-h264,stream-format=(string)byte-stream,alignment=(string)au",
    }
}

/// Hardware encoders for `codec`, in order of preference.
pub open spec fn hardware_encoders(codec: Codec) -> Seq<Seq<char>> {
    match codec {
        Codec::H264 => seq!["vaapih264enc"@, "nvh264enc"@, "v4l2h264enc"@],
        Codec::Hevc => seq!["vaapih265enc"@, "nvh265enc"@, "v4l2h265enc"@],
        Codec::Av1 => seq!["vaapav1enc"@, "vaapivav1enc"@, "nvav1enc"@],
    }
}

/// Software encoders for `codec`, in order of preference.
pub open spec fn software_encoders(codec: Codec) -> Seq<Seq<char>> {
    match codec {
        Codec::H264 => seq!["x264enc"@, "openh264enc"@],
        Codec::Hevc => seq!["x265enc"@],
        Codec::Av1 => seq!["svtav1enc"@, "av1enc"@, "rav1enc"@],
    }
}

/// Hardware encoders for `codec`, in order of preference.
pub fn hardware_encoder_candidates(codec: Codec) -> (r: Vec<&'static str>)
    ensures
        str_views(r@) == hardware_encoders(codec),
{
    let r = match codec {
        Codec::H264 => vec!["vaapih264enc", "nvh264enc", "v4l2h264enc"],
        Codec::Hevc => vec!["vaapih265enc", "nvh265enc", "v4l2h265enc"],
        Codec::Av1 => vec!["vaapav1enc", "vaapivav1enc", "nvav1enc"],
    };
    proof {
        assert(str_views(r@) =~= hardware_encoders(codec));
    }
    r
}

/// Software encoders for `codec`, in order of preference.
pub fn software_encoder_candidates(codec: Codec) -> (r: Vec<&'static str>)
    ensures
        str_views(r@) == software_encoders(codec),
{
    let r = match codec {
        Codec::H264 => vec!["x264enc", "openh264enc"],
        Codec::Hevc => vec!["x265enc"],
        Codec::Av1 => vec!["svtav1enc", "av1enc", "rav1enc"],
    };
    proof {
        assert(str_views(r@) =~= software_encoders(codec));
    }
    r
}

/// The raw format an encoder takes: NV12 (or P010 for 10-bit) for VA-API,
/// NVENC and V4L2 encoders, I420 for the others.
pub open spec fn input_format_of(encoder: Seq<char>, enable_10bit: bool) -> Seq<char> {
    if crate::text::has_prefix(encoder, "vaapi"@) || crate::text::has_prefix(encoder, "nv"@)
        || crate::text::has_prefix(encoder, "v4l2"@) {
        if enable_10bit {
            "P010_10LE"@
        } else {
            "NV12"@
        }
    } else {
        "I420"@
    }
}

/// The raw format the encoder element `encoder_name` takes.
pub fn encoder_input_format(encoder_name: &str, enable_10bit: bool) -> (r: &'static str)
    ensures
        r@ == input_format_of(encoder_name@, enable_10bit),
{
    if crate::text::strip_prefix(encoder_name, "vaapi").is_some() || crate::text::strip_prefix(
        encoder_name,
        "nv",
    ).is_some() || crate::text::strip_prefix(encoder_name, "v4l2").is_some() {
        if enable_10bit {
            "P010_10LE"
        } else {
            "NV12"
        }
    } else {
        "I420"
    }
}

/// The first available encoder for `codec`, hardware ones first, and its
/// input format; `available[i]` says whether the `i`-th candidate (hardware
/// then software) is installed.
pub fn select_encoder(codec: Codec, enable_10bit: bool, available: &Vec<bool>) -> (r: Option<
    (&'static str, &'static str),
>)
    requires
        available@.len() == hardware_encoders(codec).len() + software_encoders(codec).len(),
    ensures
        match r {
            Some((enc, fmt)) => exists|i: int|
                0 <= i < available@.len() && #[trigger] available@[i] && (forall|j: int|
                    0 <= j < i ==> !available@[j]) && enc@ == (hardware_encoders(codec)
                    + software_encoders(codec))[i] && fmt@ == input_format_of(enc@, enable_10bit),
            None => forall|i: int| 0 <= i < available@.len() ==> !#[trigger] available@[i],
        },
{
    let mut candidates = hardware_encoder_candidates(codec);
    let mut soft = software_encoder_candidates(codec);
    let ghost h = candidates@;
    let ghost s = soft@;
    candidates.append(&mut soft);
    proof {
        assert(str_views(candidates@) =~= hardware_encoders(codec) + software_encoders(codec)) by {
            assert(candidates@ =~= h + s);
        }
    }
    let mut i: usize = 0;
    while i < candidates.len()
        invariant
            candidates@.len() == available@.len(),
            str_views(candidates@) == hardware_encoders(codec) + software_encoders(codec),
            i <= candidates@.len(),
            forall|j: int| 0 <= j < i ==> !#[trigger] available@[j],
        decreases candidates@.len() - i,
    {
        if available[i] {
            let enc = candidates[i];
            proof {
                assert(str_views(candidates@)[i as int] == enc@);
            }
            return Some((enc, encoder_input_format(enc, enable_10bit)));
        }
        i = i + 1;
    }
    None
}

/// The crop that isolates monitor `display_id` (by position in the X11
/// RandR list of connected outputs, each as x, y, width, height) on a screen
/// of the given size: the monitor's left and top offsets (negative ones
/// taken as 0), and the space right of and below it (at least 0). Sizes
/// below 1 are taken as 1. `None` when there is no such monitor.
pub open spec fn monitor_crop_spec(
    monitors: Seq<(i16, i16, u16, u16)>,
    display_id: u32,
    screen_w: u16,
    screen_h: u16,
) -> Option<(u32, u32, u32, u32)> {
    if display_id >= monitors.len() {
        None
    } else {
        let m = monitors[display_id as int];
        let x: int = if m.0 < 0 { 0 } else { m.0 as int };
        let y: int = if m.1 < 0 { 0 } else { m.1 as int };
        let w: int = if m.2 < 1 { 1 } else { m.2 as int };
        let h: int = if m.3 < 1 { 1 } else { m.3 as int };
        let right: int = if screen_w >= x + w { screen_w - (x + w) } else { 0 };
        let bottom: int = if screen_h >= y + h { screen_h - (y + h) } else { 0 };
        Some((x as u32, right as u32, y as u32, bottom as u32))
    }
}

/// See [`monitor_crop_spec`].
pub fn monitor_crop(
    monitors: &Vec<(i16, i16, u16, u16)>,
    display_id: u32,
    screen_w: u16,
    screen_h: u16,
) -> (r: Option<(u32, u32, u32, u32)>)
    ensures
        r == monitor_crop_spec(monitors@, display_id, screen_w, screen_h),
{
    let idx = display_id as usize;
    if idx >= monitors.len() {
        return None;
    }
    let (mx, my, mw, mh) = monitors[idx];
    let x: u32 = if mx < 0 { 0 } else { mx as u32 };
    let y: u32 = if my < 0 { 0 } else { my as u32 };
    let w: u32 = if mw < 1 { 1 } else { mw as u32 };
    let h: u32 = if mh < 1 { 1 } else { mh as u32 };
    let right = (screen_w as u32).saturating_sub(x.saturating_add(w));
    let bottom = (screen_h as u32).saturating_sub(y.saturating_add(h));
    Some((x, right, y, bottom))
}

/// The compositor a desktop session runs: on Wayland the first of KWin,
/// GNOME Shell, Sway and Hyprland whose process runs, else "Wayland (<display>)";
/// "X11" on an X display; none without a display.
pub open spec fn compositor_spec(
    wayland_display: Option<Seq<char>>,
    kwin: bool,
    gnome_shell: bool,
    sway: bool,
    hyprland: bool,
    x11_display: bool,
) -> Option<Seq<char>> {
    match wayland_display {
        Some(d) => if kwin {
            Some("KWin (KDE Plasma)"@)
        } else if gnome_shell {
            Some("GNOME Shell (Mutter)"@)
        } else if sway {
            Some("Sway"@)
        } else if hyprland {
            Some("Hyprland"@)
        } else {
            Some("Wayland ("@ + d + ")"@)
        },
        None => if x11_display {
            Some("X11"@)
        } else {
            None
        },
    }
}

/// See [`compositor_spec`]; the flags say whether the `kwin_wayland`,
/// `gnome-shell`, `sway` and `Hyprland` processes run.
pub fn detect_compositor_name(
    wayland_display: Option<&str>,
    kwin: bool,
    gnome_shell: bool,
    sway: bool,
    hyprland: bool,
    x11_display: bool,
) -> (r: Option<String>)
    ensures
        crate::auth_flow::ov(r) == compositor_spec(
            crate::security::opt_chars(wayland_display),
            kwin,
            gnome_shell,
            sway,
            hyprland,
            x11_display,
        ),
{
    match wayland_display {
        Some(d) => if kwin {
            Some(to_owned_string("KWin (KDE Plasma)"))
        } else if gnome_shell {
            Some(to_owned_string("GNOME Shell (Mutter)"))
        } else if sway {
            Some(to_owned_string("Sway"))
        } else if hyprland {
            Some(to_owned_string("Hyprland"))
        } else {
            let mut r = to_owned_string("Wayland (");
            append_str(&mut r, d);
            append_str(&mut r, ")");
            Some(r)
        },
        None => if x11_display {
            Some(to_owned_string("X11"))
        } else {
            None
        },
    }
}

/// The positions of the monitor streams among all streams, in order.
pub open spec fn monitor_indices(is_monitor: Seq<bool>) -> Seq<int>
    decreases is_monitor.len(),
{
    if is_monitor.len() == 0 {
        seq![]
    } else if is_monitor.last() {
        monitor_indices(is_monitor.drop_last()).push(is_monitor.len() - 1)
    } else {
        monitor_indices(is_monitor.drop_last())
    }
}

/// The position, among all streams, of the monitor stream a capture uses:
/// the requested one among the monitor streams (window and virtual streams
/// are not monitors), or the first when it is absent or out of range.
pub open spec fn monitor_stream_spec(is_monitor: Seq<bool>, display_id: Option<u32>) -> Option<int> {
    let monitors = monitor_indices(is_monitor);
    if monitors.len() == 0 {
        None
    } else {
        match display_id {
            Some(id) => if id < monitors.len() {
                Some(monitors[id as int])
            } else {
                Some(monitors[0])
            },
            None => Some(monitors[0]),
        }
    }
}

/// The positions of the monitor streams, in order.
fn monitor_positions(is_monitor: &Vec<bool>) -> (r: Vec<usize>)
    ensures
        r@.map_values(|v: usize| v as int) == monitor_indices(is_monitor@),
{
    let mut r: Vec<usize> = Vec::new();
    let mut i: usize = 0;
    while i < is_monitor.len()
        invariant
            i <= is_monitor@.len(),
            r@.map_values(|v: usize| v as int) == monitor_indices(is_monitor@.subrange(0, i as int)),
        decreases is_monitor.len() - i,
    {
        proof {
            let t = is_monitor@.subrange(0, i + 1);
            assert(t.drop_last() =~= is_monitor@.subrange(0, i as int));
            assert(t.last() == is_monitor@[i as int]);
        }
        let ghost before = r@;
        if is_monitor[i] {
            r.push(i);
            proof {
                assert(r@.map_values(|v: usize| v as int) =~= before.map_values(|v: usize| v as int).push(
                    i as int,
                ));
            }
        }
        i = i + 1;
    }
    proof {
        assert(is_monitor@.subrange(0, is_monitor@.len() as int) =~= is_monitor@);
    }
    r
}

/// Picks the monitor stream to capture (see [`monitor_stream_spec`]); an
/// error when there is no monitor stream.
pub fn select_portal_monitor_stream(is_monitor: &Vec<bool>, display_id: Option<u32>) -> (r: Result<
    usize,
    &'static str,
>)
    ensures
        match r {
            Ok(i) => monitor_stream_spec(is_monitor@, display_id) == Some(i as int),
            Err(m) => monitor_stream_spec(is_monitor@, display_id) is None && m@ == "no monitor streams returned"@,
        },
{
    let monitors = monitor_positions(is_monitor);
    proof {
        assert(monitors@.map_values(|v: usize| v as int).len() == monitors@.len());
    }
    if monitors.len() == 0 {
        return Err("no monitor streams returned");
    }
    match display_id {
        Some(id) => if (id as usize) < monitors.len() {
            proof {
                assert(monitors@.map_values(|v: usize| v as int)[id as int] == monitors@[id as int] as int);
            }
            Ok(monitors[id as usize])
        } else {
            proof {
                assert(monitors@.map_values(|v: usize| v as int)[0] == monitors@[0] as int);
            }
            Ok(monitors[0])
        },
        None => {
            proof {
                assert(monitors@.map_values(|v: usize| v as int)[0] == monitors@[0] as int);
            }
            Ok(monitors[0])
        },
    }
}

/// How many times a portal request is tried.
pub const PORTAL_MAX_ATTEMPTS: u32 = 4;

/// The pause before the retry that follows failed attempt `attempt`
/// (counted from 1), in milliseconds: 350, doubled each time; none after
/// the last attempt.
pub open spec fn portal_retry_delay_spec(attempt: u32) -> Option<u64> {
    if 1 <= attempt && attempt < PORTAL_MAX_ATTEMPTS {
        Some((350 * vstd::arithmetic::power2::pow2((attempt - 1) as nat)) as u64)
    } else {
        None
    }
}

/// See [`portal_retry_delay_spec`].
pub fn portal_retry_delay(attempt: u32) -> (r: Option<u64>)
    ensures
        r == portal_retry_delay_spec(attempt),
{
    if attempt == 1 {
        proof { vstd::arithmetic::power2::lemma2_to64(); }
        Some(350)
    } else if attempt == 2 {
        proof { vstd::arithmetic::power2::lemma2_to64(); }
        Some(700)
    } else if attempt == 3 {
        proof { vstd::arithmetic::power2::lemma2_to64(); }
        Some(1400)
    } else {
        None
    }
}

/// The error a portal request ends with after its last attempt: the label,
/// the number of attempts and the last error, then, on Wayland, guidance on
/// the portal and PipeWire processes and the expected backends.
pub open spec fn portal_failure_text(
    label: Seq<char>,
    err: Seq<char>,
    wayland: bool,
    portal_running: bool,
    pipewire_running: bool,
    hint: Seq<char>,
) -> Seq<char> {
    let hints: Seq<Seq<char>> = if wayland {
        (if portal_running {
            seq![]
        } else {
            seq!["xdg-desktop-portal process not detected"@]
        }) + (if pipewire_running {
            seq![]
        } else {
            seq!["PipeWire process not detected"@]
        }) + seq![hint]
    } else {
        seq![]
    };
    "Portal "@ + label + " failed after 4 attempts. Check permissions and portal availability: "@ + err
        + "."@ + if hints.len() == 0 {
        Seq::<char>::empty()
    } else {
        " Guidance: "@ + joined(hints, " | "@)
    }
}

/// See [`portal_failure_text`]; `desktop` is the desktop the hint names.
pub fn portal_failure_message(
    label: &str,
    err: &str,
    wayland: bool,
    portal_running: bool,
    pipewire_running: bool,
    desktop: Option<&str>,
) -> (r: String)
    ensures
        r@ == portal_failure_text(
            label@,
            err@,
            wayland,
            portal_running,
            pipewire_running,
            "Desktop '"@ + match desktop {
                Some(d) => d@,
                None => "unknown desktop"@,
            } + "': expected portal backend(s): "@ + joined(
                expected_backends(crate::security::opt_chars(desktop)),
                ", "@,
            ),
        ),
{
    let mut r = to_owned_string("Portal ");
    append_str(&mut r, label);
    append_str(&mut r, " failed after 4 attempts. Check permissions and portal availability: ");
    append_str(&mut r, err);
    append_str(&mut r, ".");
    if wayland {
        let hint = portal_backend_hint_message(desktop);
        let ghost hv = hint@;
        let ghost hints: Seq<Seq<char>> = (if portal_running {
            seq![]
        } else {
            seq!["xdg-desktop-portal process not detected"@]
        }) + (if pipewire_running {
            seq![]
        } else {
            seq!["PipeWire process not detected"@]
        }) + seq![hv];
        append_str(&mut r, " Guidance: ");
        if !portal_running {
            append_str(&mut r, "xdg-desktop-portal process not detected");
            append_str(&mut r, " | ");
        }
        if !pipewire_running {
            append_str(&mut r, "PipeWire process not detected");
            append_str(&mut r, " | ");
        }
        append_str(&mut r, hint.as_str());
        proof {
            lemma_join_three(portal_running, pipewire_running, hv);
        }
    }
    r
}

proof fn lemma_join_three(portal_running: bool, pipewire_running: bool, hint: Seq<char>)
    ensures
        joined(
            (if portal_running {
                seq![]
            } else {
                seq!["xdg-desktop-portal process not detected"@]
            }) + (if pipewire_running {
                seq![]
            } else {
                seq!["PipeWire process not detected"@]
            }) + seq![hint],
            " | "@,
        ) == (if portal_running {
            Seq::<char>::empty()
        } else {
            "xdg-desktop-portal process not detected"@ + " | "@
        }) + (if pipewire_running {
            Seq::<char>::empty()
        } else {
            "PipeWire process not detected"@ + " | "@
        }) + hint,
{
    let a: Seq<Seq<char>> = if portal_running {
        seq![]
    } else {
        seq!["xdg-desktop-portal process not detected"@]
    };
    let b: Seq<Seq<char>> = if pipewire_running {
        seq![]
    } else {
        seq!["PipeWire process not detected"@]
    };
    let l = a + b + seq![hint];
    let sep = " | "@;
    let x = "xdg-desktop-portal process not detected"@;
    let y = "PipeWire process not detected"@;
    reveal_with_fuel(joined, 4);
    if portal_running && pipewire_running {
        assert(l =~= seq![hint]);
        assert(Seq::<char>::empty() + Seq::<char>::empty() + hint =~= hint);
    } else if portal_running {
        assert(l =~= seq![y, hint]);
        assert(l.drop_last() =~= seq![y]);
        assert(Seq::<char>::empty() + (y + sep) + hint =~= y + sep + hint);
    } else if pipewire_running {
        assert(l =~= seq![x, hint]);
        assert(l.drop_last() =~= seq![x]);
        assert((x + sep) + Seq::<char>::empty() + hint =~= x + sep + hint);
    } else {
        assert(l =~= seq![x, y, hint]);
        assert(l.drop_last() =~= seq![x, y]);
        assert(l.drop_last().drop_last() =~= seq![x]);
        assert(joined(l.drop_last(), sep) == x + sep + y);
        assert((x + sep) + (y + sep) + hint =~= x + sep + y + sep + hint);
    }
}

/// The names of `names` not found (`found[i]` says whether `names[i]` was),
/// in order.
pub open spec fn unfound(names: Seq<Seq<char>>, found: Seq<bool>) -> Seq<Seq<char>>
    decreases names.len(),
{
    if names.len() == 0 || found.len() != names.len() {
        seq![]
    } else if found.last() {
        unfound(names.drop_last(), found.drop_last())
    } else {
        unfound(names.drop_last(), found.drop_last()).push(names.last())
    }
}

fn unfound_names(names: &Vec<&'static str>, found: &Vec<bool>) -> (r: Vec<&'static str>)
    requires
        names@.len() == found@.len(),
    ensures
        str_views(r@) == unfound(str_views(names@), found@),
{
    let mut r: Vec<&'static str> = Vec::new();
    let mut i: usize = 0;
    while i < names.len()
        invariant
            names@.len() == found@.len(),
            i <= names@.len(),
            str_views(r@) == unfound(str_views(names@.subrange(0, i as int)), found@.subrange(0, i as int)),
        decreases names.len() - i,
    {
        proof {
            let t = str_views(names@.subrange(0, i + 1));
            let f = found@.subrange(0, i + 1);
            assert(t.drop_last() =~= str_views(names@.subrange(0, i as int)));
            assert(f.drop_last() =~= found@.subrange(0, i as int));
            assert(t.last() == names@[i as int]@);
            assert(f.last() == found@[i as int]);
        }
        if !found[i] {
            let ghost before = r@;
            r.push(names[i]);
            proof {
                assert(str_views(r@) =~= str_views(before).push(names@[i as int]@));
            }
        }
        i = i + 1;
    }
    proof {
        assert(names@.subrange(0, names@.len() as int) =~= names@);
        assert(found@.subrange(0, found@.len() as int) =~= found@);
    }
    r
}

/// Checks that the elements a pipeline needs were all found (`found[i]`
/// says whether `names[i]` was); otherwise the error lists the missing
/// ones.
pub fn require_elements(names: &Vec<&'static str>, found: &Vec<bool>) -> (r: Result<(), String>)
    requires
        names@.len() == found@.len(),
    ensures
        match r {
            Ok(()) => unfound(str_views(names@), found@).len() == 0,
            Err(m) => unfound(str_views(names@), found@).len() > 0 && m@ == "missing GStreamer elements: "@
                + joined(unfound(str_views(names@), found@), ", "@),
        },
{
    let missing = unfound_names(names, found);
    if missing.len() == 0 {
        Ok(())
    } else {
        let list = join_strs(&missing, ", ");
        let mut m = to_owned_string("missing GStreamer elements: ");
        append_str(&mut m, list.as_str());
        Err(m)
    }
}

/// The parser element for `codec` when it was found; otherwise an error
/// naming it.
pub fn select_parser(codec: Codec, parser_found: bool) -> (r: Result<&'static str, String>)
    ensures
        match r {
            Ok(p) => parser_found && p@ == parser_name(codec),
            Err(m) => !parser_found && m@ == "missing GStreamer parser element: "@ + parser_name(codec),
        },
{
    let parser = parser_for(codec);
    if !parser_found {
        let mut m = to_owned_string("missing GStreamer parser element: ");
        append_str(&mut m, parser);
        return Err(m);
    }
    Ok(parser)
}

/// The name of the parser element for `codec`.
pub open spec fn parser_name(codec: Codec) -> Seq<char> {
    match codec {
        Codec::Av1 => "av1parse"@,
        Codec::Hevc => "h265parse"@,
        Codec::H264 => "h264parse"@,
    }
}

/// The debug name of a codec.
pub open spec fn codec_debug_name(codec: Codec) -> Seq<char> {
    match codec {
        Codec::Av1 => "Av1"@,
        Codec::Hevc => "Hevc"@,
        Codec::H264 => "H264"@,
    }
}

/// Checks that some decoder for `codec` was found (`found[i]` says whether
/// the `i`-th of [`decoder_candidates`] was); otherwise the error names the
/// codec and the decoders tried.
pub fn require_decoder(codec: Codec, found: &Vec<bool>) -> (r: Result<(), String>)
    requires
        found@.len() == decoder_candidates_spec(codec).len(),
    ensures
        match r {
            Ok(()) => exists|i: int| 0 <= i < found@.len() && found@[i],
            Err(m) => (forall|i: int| 0 <= i < found@.len() ==> !found@[i]) && m@ == "missing GStreamer decoder for "@
                + codec_debug_name(codec) + ". Tried: "@ + joined(decoder_candidates_spec(codec), ", "@),
        },
{
    let candidates = decoder_candidates(codec);
    let mut i: usize = 0;
    while i < found.len()
        invariant
            i <= found@.len(),
            forall|k: int| 0 <= k < i ==> !found@[k],
        decreases found.len() - i,
    {
        if found[i] {
            return Ok(());
        }
        i = i + 1;
    }
    let list = join_strs(&candidates, ", ");
    let mut m = to_owned_string("missing GStreamer decoder for ");
    let name = match codec {
        Codec::Av1 => "Av1",
        Codec::Hevc => "Hevc",
        Codec::H264 => "H264",
    };
    append_str(&mut m, name);
    append_str(&mut m, ". Tried: ");
    append_str(&mut m, list.as_str());
    Err(m)
}

/// The decoders tried for `codec`, in order.
pub open spec fn decoder_candidates_spec(codec: Codec) -> Seq<Seq<char>> {
    match codec {
        Codec::H264 => seq!["vaapih264dec"@, "avdec_h264"@, "openh264dec"@],
        Codec::Hevc => seq!["vaapih265dec"@, "avdec_h265"@],
        Codec::Av1 => seq!["vaapav1dec"@, "vaapivav1dec"@, "av1dec"@, "dav1ddec"@],
    }
}

} // verus!
