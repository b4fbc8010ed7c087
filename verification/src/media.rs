//! Media types shared by encoders, decoders, renderers and capability probes,
//! with the audio framing constants and a stand-in encoder and renderer.

use vstd::prelude::*;

verus! {

/// A video codec.
#[derive(Debug, Clone, Copy, PartialEq, Eq, Structural, Hash)]
pub enum Codec {
    Av1,
    Hevc,
    H264,
}

/// Pixel layout of a raw frame.
#[derive(Debug, Clone, Copy, PartialEq, Eq, Structural)]
pub enum FrameFormat {
    Rgba8,
    Nv12,
}

/// A compressed video frame.
#[derive(Debug, Clone)]
pub struct EncodedFrame {
    pub timestamp_us: u64,
    pub keyframe: bool,
    pub data: Vec<u8>,
}

/// Width and height in pixels.
#[derive(Debug, Clone, Copy, PartialEq, Eq, Structural)]
pub struct Resolution {
    pub width: u16,
    pub height: u16,
}

/// How to encode a video stream.
#[derive(Debug, Clone, Copy, PartialEq, Eq, Structural)]
pub struct EncodeConfig {
    pub codec: Codec,
    pub resolution: Resolution,
    pub fps: u16,
    pub bitrate_kbps: u32,
    pub keyframe_interval_ms: u32,
    pub display_id: Option<u32>,
    pub enable_10bit: bool,
    pub enable_hdr: bool,
}

/// How to decode a video stream.
#[derive(Debug, Clone, Copy, PartialEq, Eq, Structural)]
pub struct DecodeConfig {
    pub codec: Codec,
    pub resolution: Resolution,
    pub enable_10bit: bool,
    pub enable_hdr: bool,
}

/// A display that can be captured.
#[derive(Debug, Clone)]
pub struct DisplayInfo {
    pub id: u32,
    pub name: String,
    pub resolution: Resolution,
}

/// What an encoder can do for one codec.
#[derive(Debug, Clone, Copy, PartialEq, Eq, Structural)]
pub struct VideoCodecCapability {
    pub codec: Codec,
    pub hardware_accelerated: bool,
    pub supports_10bit: bool,
    pub supports_hdr10: bool,
}

impl VideoCodecCapability {
    /// An 8-bit, SDR-only capability for `codec`.
    pub fn sdr(codec: Codec, hardware_accelerated: bool) -> (r: Self)
        ensures
            r == (VideoCodecCapability {
                codec,
                hardware_accelerated,
                supports_10bit: false,
                supports_hdr10: false,
            }),
    {
        VideoCodecCapability { codec, hardware_accelerated, supports_10bit: false, supports_hdr10: false }
    }
}

/// The SDR capability, not hardware accelerated, of each of `codecs` in
/// order.
pub open spec fn sdr_capabilities(codecs: Seq<Codec>) -> Seq<VideoCodecCapability> {
    codecs.map_values(|c: Codec| VideoCodecCapability {
        codec: c,
        hardware_accelerated: false,
        supports_10bit: false,
        supports_hdr10: false,
    })
}

/// SDR capabilities, not hardware accelerated, for each of `codecs` in order.
pub fn capabilities_from_codecs(codecs: &Vec<Codec>) -> (r: Vec<VideoCodecCapability>)
    ensures
        r@ == codecs@.map_values(|c: Codec| VideoCodecCapability {
            codec: c,
            hardware_accelerated: false,
            supports_10bit: false,
            supports_hdr10: false,
        }),
{
    let mut r: Vec<VideoCodecCapability> = Vec::new();
    let mut i: usize = 0;
    while i < codecs.len()
        invariant
            i <= codecs@.len(),
            r@ == codecs@.take(i as int).map_values(|c: Codec| VideoCodecCapability {
                codec: c,
                hardware_accelerated: false,
                supports_10bit: false,
                supports_hdr10: false,
            }),
        decreases codecs@.len() - i,
    {
        r.push(VideoCodecCapability::sdr(codecs[i], false));
        proof {
            assert(codecs@.take(i + 1).map_values(|c: Codec| VideoCodecCapability {
                codec: c,
                hardware_accelerated: false,
                supports_10bit: false,
                supports_hdr10: false,
            }) =~= codecs@.take(i as int).map_values(|c: Codec| VideoCodecCapability {
                codec: c,
                hardware_accelerated: false,
                supports_10bit: false,
                supports_hdr10: false,
            }).push(
                VideoCodecCapability {
                    codec: codecs@[i as int],
                    hardware_accelerated: false,
                    supports_10bit: false,
                    supports_hdr10: false,
                },
            ));
        }
        i = i + 1;
    }
    proof {
        assert(codecs@.take(codecs@.len() as int) =~= codecs@);
    }
    r
}

/// The codecs of the hardware-accelerated capabilities, in order.
pub open spec fn hardware_codec_list(caps: Seq<VideoCodecCapability>) -> Seq<Codec>
    decreases caps.len(),
{
    if caps.len() == 0 {
        Seq::empty()
    } else if caps.last().hardware_accelerated {
        hardware_codec_list(caps.drop_last()).push(caps.last().codec)
    } else {
        hardware_codec_list(caps.drop_last())
    }
}

/// The codecs of the hardware-accelerated capabilities among `caps`.
pub fn hardware_codecs(caps: &Vec<VideoCodecCapability>) -> (r: Vec<Codec>)
    ensures
        r@ == hardware_codec_list(caps@),
{
    let mut r: Vec<Codec> = Vec::new();
    let mut i: usize = 0;
    while i < caps.len()
        invariant
            i <= caps@.len(),
            r@ == hardware_codec_list(caps@.take(i as int)),
        decreases caps@.len() - i,
    {
        proof {
            assert(caps@.take(i + 1).drop_last() =~= caps@.take(i as int));
        }
        if caps[i].hardware_accelerated {
            r.push(caps[i].codec);
        }
        i = i + 1;
    }
    proof {
        assert(caps@.take(caps@.len() as int) =~= caps@);
    }
    r
}

/// What a platform can encode, decode and capture.
pub trait CapabilityProbe {
    /// Codecs that can be encoded.
    fn supported_encoders(&self) -> Result<Vec<Codec>, String>;

    /// Codecs that can be decoded.
    fn supported_decoders(&self) -> Result<Vec<Codec>, String>;

    /// Displays that can be captured.
    fn enumerate_displays(&self) -> Result<Vec<DisplayInfo>, String>;

    /// Capabilities of the encoders; by default SDR and software for each
    /// supported codec.
    fn encoder_capabilities(&self) -> (r: Result<Vec<VideoCodecCapability>, String>)
        default_ensures
            exists|e: Result<Vec<Codec>, String>|
                call_ensures(Self::supported_encoders, (self,), e) && match e {
                    Ok(codecs) => r matches Ok(caps) && caps@ == sdr_capabilities(codecs@),
                    Err(m) => r == Err::<Vec<VideoCodecCapability>, String>(m),
                },
    {
        let e = self.supported_encoders();
        let ghost e0 = e;
        assert(call_ensures(Self::supported_encoders, (self,), e0));
        match e {
            Ok(codecs) => Ok(capabilities_from_codecs(&codecs)),
            Err(e) => Err(e),
        }
    }

    /// Codecs with a hardware encoder.
    fn supported_hardware_encoders(&self) -> (r: Result<Vec<Codec>, String>)
        default_ensures
            exists|c: Result<Vec<VideoCodecCapability>, String>|
                call_ensures(Self::encoder_capabilities, (self,), c) && match c {
                    Ok(caps) => r matches Ok(codecs) && codecs@ == hardware_codec_list(caps@),
                    Err(m) => r == Err::<Vec<Codec>, String>(m),
                },
    {
        let c = self.encoder_capabilities();
        let ghost c0 = c;
        assert(call_ensures(Self::encoder_capabilities, (self,), c0));
        match c {
            Ok(caps) => Ok(hardware_codecs(&caps)),
            Err(e) => Err(e),
        }
    }
}

/// Something that presents decoded media.
pub trait Renderer {
    /// Presents one payload stamped `timestamp_us`.
    fn render(&mut self, payload: &[u8], timestamp_us: u64) -> Result<(), String>;
}

/// A probe that reports nothing.
pub struct NullProbe;

impl CapabilityProbe for NullProbe {
    /// No codec can be encoded.
    fn supported_encoders(&self) -> (r: Result<Vec<Codec>, String>)
        ensures
            r matches Ok(v) && v@ == Seq::<Codec>::empty(),
    {
        Ok(Vec::new())
    }

    /// No codec can be decoded.
    fn supported_decoders(&self) -> (r: Result<Vec<Codec>, String>)
        ensures
            r matches Ok(v) && v@ == Seq::<Codec>::empty(),
    {
        Ok(Vec::new())
    }

    /// No display can be captured.
    fn enumerate_displays(&self) -> (r: Result<Vec<DisplayInfo>, String>)
        ensures
            r matches Ok(v) && v@ == Seq::<DisplayInfo>::empty(),
    {
        Ok(Vec::new())
    }
}

/// What an Android device offers through MediaCodec: H.264 and HEVC
/// encoding, those and AV1 decoding, and its built-in display.
pub struct AndroidProbe;

impl CapabilityProbe for AndroidProbe {
    /// H.264 and HEVC.
    fn supported_encoders(&self) -> (r: Result<Vec<Codec>, String>)
        ensures
            r matches Ok(v) && v@ == seq![Codec::H264, Codec::Hevc],
    {
        Ok(vec![Codec::H264, Codec::Hevc])
    }

    /// H.264, HEVC and AV1.
    fn supported_decoders(&self) -> (r: Result<Vec<Codec>, String>)
        ensures
            r matches Ok(v) && v@ == seq![Codec::H264, Codec::Hevc, Codec::Av1],
    {
        Ok(vec![Codec::H264, Codec::Hevc, Codec::Av1])
    }

    /// The internal display, 1080 by 1920, as display 0.
    fn enumerate_displays(&self) -> (r: Result<Vec<DisplayInfo>, String>)
        ensures
            r matches Ok(v) && v@.len() == 1 && v@[0].id == 0 && v@[0].name@ == "Internal Display"@
                && v@[0].resolution == (Resolution { width: 1080, height: 1920 }),
    {
        let d = DisplayInfo {
            id: 0,
            name: crate::text::to_owned_string("Internal Display"),
            resolution: Resolution { width: 1080, height: 1920 },
        };
        Ok(vec![d])
    }
}

/// A mouse button.
#[derive(Debug, Clone, Copy, PartialEq, Eq, Structural)]
pub enum MouseButton {
    Left,
    Right,
    Middle,
}

/// A gamepad button and whether it is down.
#[derive(Debug, Clone, Copy, PartialEq, Eq, Structural)]
pub struct GamepadButton {
    pub button: u32,
    pub pressed: bool,
}

/// Opus sample rate in hertz.
pub const OPUS_SAMPLE_RATE: u32 = 48_000;

/// Audio channels sent.
pub const OPUS_CHANNELS: usize = 2;

/// Length of one Opus frame in milliseconds.
pub const OPUS_FRAME_MS: u32 = 5;

/// Samples per channel in one Opus frame.
pub const OPUS_FRAME_SAMPLES: usize = 240;

/// Largest number of samples per channel in one decoded Opus frame.
pub const OPUS_MAX_FRAME_SAMPLES: usize = 5_760;

/// Largest encoded Opus packet, in bytes.
pub const OPUS_MAX_PACKET_BYTES: usize = 4_000;

/// Opus bit rate in bits per second.
pub const OPUS_BITRATE_BPS: i32 = 128_000;

/// Frames of audio buffered at most.
pub const AUDIO_MAX_BUFFER_FRAMES: usize = 4;

/// Samples (all channels) buffered at most.
pub const AUDIO_MAX_BUFFER_SAMPLES: usize = 1920;

/// Samples per channel in one frame follow from the rate and frame length, and
/// the buffer bound from the frame size, channels and frame count.
pub proof fn law_audio_constants()
    ensures
        OPUS_FRAME_SAMPLES == (OPUS_SAMPLE_RATE / 1000) * OPUS_FRAME_MS,
        AUDIO_MAX_BUFFER_SAMPLES == OPUS_FRAME_SAMPLES * OPUS_CHANNELS * AUDIO_MAX_BUFFER_FRAMES,
{
}

/// Duration of one Opus frame in microseconds.
pub fn opus_frame_duration_us() -> (r: u64)
    ensures
        r == (OPUS_FRAME_SAMPLES as int) * 1_000_000 / (OPUS_SAMPLE_RATE as int),
        r == 5000,
{
    assert(240_000_000int / 48_000int == 5000) by (nonlinear_arith);
    (OPUS_FRAME_SAMPLES as u64) * 1_000_000 / (OPUS_SAMPLE_RATE as u64)
}

/// The 64-bit value with high half `hi` and low half `lo`.
pub fn pack_u64(hi: u32, lo: u32) -> (r: u64)
    ensures
        r == (hi as int) * 0x1_0000_0000 + (lo as int),
{
    let h: u64 = hi as u64;
    let l: u64 = lo as u64;
    let r = (h << 32u64) | l;
    assert(r == (h as int) * 0x1_0000_0000 + (l as int)) by (bit_vector)
        requires
            h <= 0xffff_ffff,
            l <= 0xffff_ffff,
            r == (h << 32u64) | l,
    ;
    r
}

/// A stand-in encoder that produces fixed 1000-byte frames, a keyframe every
/// sixtieth frame. Pacing frames in time is left to the caller.
pub struct DummyEncoder {
    seq: u64,
    fps: u16,
}

impl DummyEncoder {
    /// An encoder for `config`, before its first frame.
    pub fn new(config: EncodeConfig) -> (r: Self)
        ensures
            r.frames_produced() == 0,
            r.fps() == config.fps,
    {
        DummyEncoder { seq: 0, fps: config.fps }
    }

    /// Frames produced so far.
    pub closed spec fn frames_produced(&self) -> u64 {
        self.seq
    }

    /// The configured frame rate.
    pub closed spec fn fps(&self) -> u16 {
        self.fps
    }

    /// The configured frame rate.
    pub fn frame_rate(&self) -> (r: u16)
        ensures
            r == self.fps(),
    {
        self.fps
    }

    /// Index of the next frame, from zero; its due time is this many frame
    /// intervals after the start.
    pub fn next_index(&self) -> (r: u64)
        ensures
            r == self.frames_produced(),
    {
        self.seq
    }

    /// The next frame, stamped `timestamp_us`.
    pub fn next_frame(&mut self, timestamp_us: u64) -> (f: EncodedFrame)
        requires
            old(self).frames_produced() < u64::MAX,
        ensures
            final(self).frames_produced() == old(self).frames_produced() + 1,
            final(self).fps() == old(self).fps(),
            f.timestamp_us == timestamp_us,
            f.keyframe == ((old(self).frames_produced() + 1) % 60 == 0),
            f.data@ == Seq::new(1000, |i: int| 0x99u8),
    {
        self.seq = self.seq + 1;
        let data = vec![0x99u8; 1000];
        proof {
            assert(data@ =~= Seq::new(1000, |i: int| 0x99u8));
        }
        EncodedFrame { timestamp_us, keyframe: self.seq % 60 == 0, data }
    }
}

/// A renderer that discards what it is given.
pub struct DummyRenderer;

impl DummyRenderer {
    /// A renderer for `config`; never fails.
    pub fn new(config: DecodeConfig) -> (r: Result<Self, String>)
        ensures
            r is Ok,
    {
        Ok(DummyRenderer)
    }

    /// Accepts and discards a payload; never fails.
    pub fn push(&mut self, data: &[u8], timestamp_us: u64) -> (r: Result<(), String>)
        ensures
            r is Ok,
    {
        Ok(())
    }
}

impl Renderer for DummyRenderer {
    /// Accepts and discards a payload; never fails.
    fn render(&mut self, payload: &[u8], timestamp_us: u64) -> (r: Result<(), String>)
        ensures
            r is Ok,
    {
        Ok(())
    }
}

/// Recording quality relative to the stream.
#[derive(Debug, Clone, Copy, PartialEq, Eq, Structural)]
pub enum Quality {
    /// Keep the configured bit rate.
    High,
    /// 75 % of the configured bit rate.
    Standard,
    /// 50 % of the configured bit rate.
    Low,
    /// A fixed bit rate in kbit/s.
    Custom(u32),
}

/// How and where streams are recorded.
#[derive(Debug, Clone)]
pub struct RecorderConfig {
    pub enabled: bool,
    pub output_dir: String,
    pub filename_prefix: String,
    pub max_file_size_mb: u32,
    pub quality: Quality,
    pub split_on_codec_change: bool,
}

impl Default for RecorderConfig {
    fn default() -> (r: Self)
        ensures
            !r.enabled,
            r.output_dir@ == "recordings"@,
            r.filename_prefix@ == "wavry-capture"@,
            r.max_file_size_mb == 2048,
            r.quality == Quality::Standard,
            r.split_on_codec_change,
    {
        RecorderConfig {
            enabled: false,
            output_dir: crate::text::to_owned_string("recordings"),
            filename_prefix: crate::text::to_owned_string("wavry-capture"),
            max_file_size_mb: 2048,
            quality: Quality::Standard,
            split_on_codec_change: true,
        }
    }
}

/// A range of stream configurations an audio device supports, as plain
/// values: its channel count, sample-rate range, and buffer-size range when
/// the device states one.
#[derive(Debug, Clone, Copy)]
pub struct AudioConfigRange {
    pub channels: u16,
    pub min_sample_rate: u32,
    pub max_sample_rate: u32,
    pub buffer_size: Option<(u32, u32)>,
}

/// Whether a range can run at the Opus sample rate.
pub open spec fn runs_at_opus_rate(r: AudioConfigRange) -> bool {
    r.min_sample_rate <= OPUS_SAMPLE_RATE && OPUS_SAMPLE_RATE <= r.max_sample_rate
}

/// The fixed buffer size to ask of a range: one Opus frame, clamped to the
/// range's buffer sizes; none when the range states none.
pub open spec fn buffer_for(r: AudioConfigRange) -> Option<u32> {
    match r.buffer_size {
        Some((lo, hi)) => Some(
            if (OPUS_FRAME_SAMPLES as u32) < lo {
                lo
            } else if (OPUS_FRAME_SAMPLES as u32) > hi {
                hi
            } else {
                OPUS_FRAME_SAMPLES as u32
            },
        ),
        None => None,
    }
}

/// Whether every stated buffer range is ordered (clamping to a reversed one
/// panics).
pub open spec fn buffer_ranges_ordered(ranges: Seq<AudioConfigRange>) -> bool {
    forall|i: int| 0 <= i < ranges.len() ==> ((#[trigger] ranges[i]).buffer_size matches Some((lo, hi)) ==> lo <= hi)
}

/// The first stereo range that runs at the Opus rate, if any.
pub open spec fn output_choice(ranges: Seq<AudioConfigRange>) -> Option<int> {
    if exists|i: int| 0 <= i < ranges.len() && ranges[i].channels == 2 && runs_at_opus_rate(ranges[i]) {
        Some(choose|i: int| 0 <= i < ranges.len() && ranges[i].channels == 2 && runs_at_opus_rate(ranges[i])
            && forall|j: int| 0 <= j < i ==> !(ranges[j].channels == 2 && runs_at_opus_rate(ranges[j])))
    } else {
        None
    }
}

fn clamp_buffer(r: AudioConfigRange) -> (b: Option<u32>)
    requires
        (r.buffer_size matches Some((lo, hi)) ==> lo <= hi),
    ensures
        b == buffer_for(r),
{
    match r.buffer_size {
        Some((lo, hi)) => {
            let desired = OPUS_FRAME_SAMPLES as u32;
            Some(
                if desired < lo {
                    lo
                } else if desired > hi {
                    hi
                } else {
                    desired
                },
            )
        },
        None => None,
    }
}

/// The playback configuration: the first stereo range that runs at the
/// Opus rate, with its buffer size; `None` when there is none (the device's
/// default configuration is used then).
pub fn select_output_config(ranges: &Vec<AudioConfigRange>) -> (r: Option<(usize, Option<u32>)>)
    requires
        buffer_ranges_ordered(ranges@),
    ensures
        match r {
            Some((i, b)) => output_choice(ranges@) == Some(i as int) && b == buffer_for(ranges@[i as int]),
            None => output_choice(ranges@) is None,
        },
{
    let mut i: usize = 0;
    while i < ranges.len()
        invariant
            i <= ranges@.len(),
            buffer_ranges_ordered(ranges@),
            forall|j: int| 0 <= j < i ==> !(ranges@[j].channels == 2 && runs_at_opus_rate(#[trigger] ranges@[j])),
        decreases ranges.len() - i,
    {
        let c = ranges[i];
        assert(c.buffer_size matches Some((lo, hi)) ==> lo <= hi);
        if c.channels == 2 && c.min_sample_rate <= OPUS_SAMPLE_RATE && OPUS_SAMPLE_RATE <= c.max_sample_rate {
            proof {
                let k = choose|k: int| 0 <= k < ranges@.len() && ranges@[k].channels == 2 && runs_at_opus_rate(ranges@[k])
                    && forall|j: int| 0 <= j < k ==> !(ranges@[j].channels == 2 && runs_at_opus_rate(ranges@[j]));
                assert(0 <= k < ranges@.len() && ranges@[k].channels == 2 && runs_at_opus_rate(ranges@[k])
                    && forall|j: int| 0 <= j < k ==> !(ranges@[j].channels == 2 && runs_at_opus_rate(ranges@[j])))
                    by {
                    assert(0 <= i < ranges@.len() && ranges@[i as int].channels == 2 && runs_at_opus_rate(ranges@[i as int])
                        && forall|j: int| 0 <= j < i ==> !(ranges@[j].channels == 2 && runs_at_opus_rate(ranges@[j])));
                }
                if k < i {
                    assert(!(ranges@[k].channels == 2 && runs_at_opus_rate(ranges@[k])));
                } else if k > i {
                    assert(!(ranges@[i as int].channels == 2 && runs_at_opus_rate(ranges@[i as int])));
                }
            }
            return Some((i, clamp_buffer(c)));
        }
        i = i + 1;
    }
    None
}

/// The capture configuration: the first stereo range that runs at the Opus
/// rate; else the last range with channels that does (its channels are
/// mapped to stereo); with its buffer size. `None` when no range runs at
/// the Opus rate (the device's default configuration is used then).
pub open spec fn input_choice(ranges: Seq<AudioConfigRange>) -> Option<int> {
    match output_choice(ranges) {
        Some(i) => Some(i),
        None => if exists|i: int| 0 <= i < ranges.len() && ranges[i].channels > 0 && runs_at_opus_rate(ranges[i]) {
            Some(choose|i: int| 0 <= i < ranges.len() && ranges[i].channels > 0 && runs_at_opus_rate(ranges[i])
                && forall|j: int| i < j < ranges.len() ==> !(ranges[j].channels > 0 && runs_at_opus_rate(ranges[j])))
        } else {
            None
        },
    }
}

/// See [`input_choice`].
pub fn select_input_config(ranges: &Vec<AudioConfigRange>) -> (r: Option<(usize, Option<u32>)>)
    requires
        buffer_ranges_ordered(ranges@),
    ensures
        match r {
            Some((i, b)) => input_choice(ranges@) == Some(i as int) && b == buffer_for(ranges@[i as int]),
            None => input_choice(ranges@) is None,
        },
{
    match select_output_config(ranges) {
        Some(found) => return Some(found),
        None => {},
    }
    let mut i: usize = ranges.len();
    while i > 0
        invariant
            i <= ranges@.len(),
            buffer_ranges_ordered(ranges@),
            output_choice(ranges@) is None,
            forall|j: int| i <= j < ranges@.len() ==> !((#[trigger] ranges@[j]).channels > 0 && runs_at_opus_rate(ranges@[j])),
        decreases i,
    {
        let c = ranges[i - 1];
        assert(c.buffer_size matches Some((lo, hi)) ==> lo <= hi);
        if c.channels > 0 && c.min_sample_rate <= OPUS_SAMPLE_RATE && OPUS_SAMPLE_RATE <= c.max_sample_rate {
            proof {
                let p = i - 1;
                assert(0 <= p < ranges@.len() && ranges@[p].channels > 0 && runs_at_opus_rate(ranges@[p])
                    && forall|j: int| p < j < ranges@.len() ==> !(ranges@[j].channels > 0 && runs_at_opus_rate(ranges@[j])));
                let k = choose|k: int| 0 <= k < ranges@.len() && ranges@[k].channels > 0 && runs_at_opus_rate(ranges@[k])
                    && forall|j: int| k < j < ranges@.len() ==> !(ranges@[j].channels > 0 && runs_at_opus_rate(ranges@[j]));
                if k < p {
                    assert(!(ranges@[p].channels > 0 && runs_at_opus_rate(ranges@[p])));
                } else if k > p {
                    assert(!(ranges@[k].channels > 0 && runs_at_opus_rate(ranges@[k])));
                }
            }
            return Some((i - 1, clamp_buffer(c)));
        }
        i = i - 1;
    }
    None
}

/// The pixels of a captured frame in memory, with the stride of a row.
#[derive(Debug)]
pub enum FrameData {
    Cpu { bytes: Vec<u8>, stride: u32 },
}

/// A captured, unencoded frame.
#[derive(Debug)]
pub struct RawFrame {
    pub width: u16,
    pub height: u16,
    pub format: FrameFormat,
    pub timestamp_us: u64,
    pub data: FrameData,
}

/// Something that captures frames of a screen.
pub trait FrameCapturer {
    /// The next frame, or why none could be captured.
    fn capture(&mut self) -> Result<RawFrame, String>;
}

/// The capturer of a platform without frame capture: every capture fails.
pub struct UnsupportedCapturer;

impl FrameCapturer for UnsupportedCapturer {
    fn capture(&mut self) -> (r: Result<RawFrame, String>)
        ensures
            r matches Err(m) && m@ == "frame capture is not implemented for this platform"@,
    {
        Err(crate::text::to_owned_string("frame capture is not implemented for this platform"))
    }
}

/// A stand-in capturer for tests and headless runs: every capture fails.
pub struct DummyCapturer;

impl DummyCapturer {
    /// A dummy capturer; making one always succeeds.
    pub fn new() -> (r: Result<Self, String>)
        ensures
            r is Ok,
    {
        Ok(DummyCapturer)
    }
}

impl FrameCapturer for DummyCapturer {
    fn capture(&mut self) -> (r: Result<RawFrame, String>)
        ensures
            r matches Err(m) && m@ == "DummyCapturer not implemented"@,
    {
        Err(crate::text::to_owned_string("DummyCapturer not implemented"))
    }
}

} // verus!
