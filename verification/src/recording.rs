//! Bookkeeping of stream recording: when to start a new MP4 file, the file's
//! name, and the timing of the video and audio samples written to it. The
//! MP4 writing itself is done by the caller.

use vstd::prelude::*;
use crate::media::{Codec, Resolution, RecorderConfig};
use crate::text::{push_char, append_str, to_owned_string};

verus! {

/// The decimal digit for `d` in `0..10`.
pub open spec fn digit_char(d: int) -> char {
    (('0' as int) + d) as char
}

/// Decimal text of `n`, without leading zeros.
pub open spec fn decimal(n: nat) -> Seq<char>
    decreases n,
{
    if n < 10 {
        seq![digit_char(n as int)]
    } else {
        decimal(n / 10).push(digit_char((n % 10) as int))
    }
}

/// Decimal text of `n` (as `{}` or `{:?}` formats it).
pub fn decimal_string(n: u64) -> (r: String)
    ensures
        r@ == decimal(n as nat),
    decreases n,
{
    let d: u8 = (n % 10) as u8;
    let c = (('0' as u8) + d) as char;
    if n < 10 {
        let mut r = String::new();
        push_char(&mut r, c);
        r
    } else {
        let mut r = decimal_string(n / 10);
        push_char(&mut r, c);
        r
    }
}

/// The name `{:?}` gives a codec.
pub open spec fn codec_name(c: Codec) -> Seq<char> {
    match c {
        Codec::Av1 => "Av1"@,
        Codec::Hevc => "Hevc"@,
        Codec::H264 => "H264"@,
    }
}

/// The name of a recording file: prefix, start time in seconds, resolution and
/// codec, as `prefix-secs-WxH-Codec.mp4`.
pub open spec fn recording_name(prefix: Seq<char>, secs: u64, res: Resolution, codec: Codec) -> Seq<char> {
    prefix + seq!['-'] + decimal(secs as nat) + seq!['-'] + decimal(res.width as nat) + seq!['x']
        + decimal(res.height as nat) + seq!['-'] + codec_name(codec) + ".mp4"@
}

/// The file name of a recording started at `secs` (seconds since the Unix
/// epoch).
pub fn recording_filename(prefix: &str, secs: u64, res: Resolution, codec: Codec) -> (r: String)
    ensures
        r@ == recording_name(prefix@, secs, res, codec),
{
    let mut r = to_owned_string(prefix);
    push_char(&mut r, '-');
    let t = decimal_string(secs);
    append_str(&mut r, t.as_str());
    push_char(&mut r, '-');
    let w = decimal_string(res.width as u64);
    append_str(&mut r, w.as_str());
    push_char(&mut r, 'x');
    let h = decimal_string(res.height as u64);
    append_str(&mut r, h.as_str());
    push_char(&mut r, '-');
    let name = match codec {
        Codec::Av1 => "Av1",
        Codec::Hevc => "Hevc",
        Codec::H264 => "H264",
    };
    append_str(&mut r, name);
    append_str(&mut r, ".mp4");
    proof {
        assert(r@ =~= recording_name(prefix@, secs, res, codec));
    }
    r
}

/// Whether `codec` can be recorded to MP4 (AV1 cannot yet).
pub fn check_recordable(codec: Codec) -> (r: Result<(), &'static str>)
    ensures
        r is Ok <==> codec != Codec::Av1,
        r matches Err(m) ==> m@ == "AV1 recording is not yet supported by the MP4 muxer"@,
{
    match codec {
        Codec::Av1 => Err("AV1 recording is not yet supported by the MP4 muxer"),
        _ => Ok(()),
    }
}

/// Abstract state of a [`RecorderState`].
pub ghost struct RecorderView {
    pub split_on_codec_change: bool,
    pub has_writer: bool,
    pub current_codec: Option<Codec>,
    pub resolution: Option<Resolution>,
    pub fps: u16,
    pub frame_count: u64,
    pub audio_sample_count: u64,
}

/// What a recorder knows of the file it is writing.
pub struct RecorderState {
    split_on_codec_change: bool,
    has_writer: bool,
    current_codec: Option<Codec>,
    resolution: Option<Resolution>,
    fps: u16,
    frame_count: u64,
    audio_sample_count: u64,
}

impl View for RecorderState {
    type V = RecorderView;

    closed spec fn view(&self) -> RecorderView {
        RecorderView {
            split_on_codec_change: self.split_on_codec_change,
            has_writer: self.has_writer,
            current_codec: self.current_codec,
            resolution: self.resolution,
            fps: self.fps,
            frame_count: self.frame_count,
            audio_sample_count: self.audio_sample_count,
        }
    }
}

impl RecorderState {
    /// A recorder with `config`, with no file open yet.
    pub fn new(config: &RecorderConfig) -> (r: Self)
        ensures
            r@ == (RecorderView {
                split_on_codec_change: config.split_on_codec_change,
                has_writer: false,
                current_codec: None,
                resolution: None,
                fps: 60,
                frame_count: 0,
                audio_sample_count: 0,
            }),
    {
        RecorderState {
            split_on_codec_change: config.split_on_codec_change,
            has_writer: false,
            current_codec: None,
            resolution: None,
            fps: 60,
            frame_count: 0,
            audio_sample_count: 0,
        }
    }

    /// Whether a file is open.
    pub fn is_initialized(&self) -> (b: bool)
        ensures
            b == self@.has_writer,
    {
        self.has_writer
    }

    /// Whether a frame of `codec` at `res` needs a new file first: none is
    /// open, or files are split on changes and the codec or resolution changed.
    pub fn needs_new_writer(&self, codec: Codec, res: Resolution) -> (b: bool)
        ensures
            b == (!self@.has_writer || (self@.split_on_codec_change && (self@.current_codec
                != Some(codec) || self@.resolution != Some(res)))),
    {
        let same_codec = match self.current_codec {
            Some(c) => c == codec,
            None => false,
        };
        let same_res = match self.resolution {
            Some(r) => r == res,
            None => false,
        };
        !self.has_writer || (self.split_on_codec_change && (!same_codec || !same_res))
    }

    /// Records that a new file was opened for `codec` at `res` and `fps`.
    pub fn writer_started(&mut self, codec: Codec, res: Resolution, fps: u16)
        ensures
            final(self)@ == (RecorderView {
                has_writer: true,
                current_codec: Some(codec),
                resolution: Some(res),
                fps,
                frame_count: 0,
                audio_sample_count: 0,
                ..old(self)@
            }),
    {
        self.has_writer = true;
        self.current_codec = Some(codec);
        self.resolution = Some(res);
        self.fps = fps;
        self.frame_count = 0;
        self.audio_sample_count = 0;
    }

    /// Records that the open file was closed.
    pub fn writer_finished(&mut self)
        ensures
            final(self)@ == (RecorderView { has_writer: false, ..old(self)@ }),
    {
        self.has_writer = false;
    }

    /// Start time and duration, in milliseconds, of the next video sample, and
    /// counts it; `None` when no file is open.
    pub fn next_video_sample(&mut self) -> (r: Option<(u64, u32)>)
        requires
            old(self)@.has_writer ==> old(self)@.fps > 0,
            old(self)@.has_writer ==> old(self)@.frame_count * (1000int / (old(self)@.fps as int))
                <= u64::MAX,
            old(self)@.has_writer ==> old(self)@.frame_count < u64::MAX,
        ensures
            !old(self)@.has_writer ==> r is None && final(self)@ == old(self)@,
            old(self)@.has_writer ==> r == Some(
                (
                    (old(self)@.frame_count * (1000int / (old(self)@.fps as int))) as u64,
                    (1000int / (old(self)@.fps as int)) as u32,
                ),
            ) && final(self)@ == (RecorderView {
                frame_count: (old(self)@.frame_count + 1) as u64,
                ..old(self)@
            }),
    {
        if !self.has_writer {
            return None;
        }
        let duration: u64 = 1000 / (self.fps as u64);
        let start = self.frame_count * duration;
        self.frame_count = self.frame_count + 1;
        Some((start, duration as u32))
    }

    /// Start time, in 48 kHz ticks, of an audio packet stamped `timestamp_us`,
    /// and counts it; `None` when no file is open.
    pub fn next_audio_sample(&mut self, timestamp_us: u64) -> (r: Option<u64>)
        requires
            old(self)@.has_writer ==> timestamp_us * 48 <= u64::MAX,
            old(self)@.has_writer ==> old(self)@.audio_sample_count < u64::MAX,
        ensures
            !old(self)@.has_writer ==> r is None && final(self)@ == old(self)@,
            old(self)@.has_writer ==> r == Some(((timestamp_us * 48) / 1000) as u64)
                && final(self)@ == (RecorderView {
                audio_sample_count: (old(self)@.audio_sample_count + 1) as u64,
                ..old(self)@
            }),
    {
        if !self.has_writer {
            return None;
        }
        let start = (timestamp_us * 48) / 1000;
        self.audio_sample_count = self.audio_sample_count + 1;
        Some(start)
    }
}

/// Duration of one audio sample in 48 kHz ticks (20 ms).
pub const AUDIO_SAMPLE_TICKS: u32 = 960;

} // verus!
