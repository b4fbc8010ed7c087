//! Accumulation of captured interleaved PCM audio into fixed-size Opus
//! frames, with a bounded backlog and a running presentation timestamp.

use vstd::prelude::*;
use crate::recording::{decimal, decimal_string};
use crate::text::{append_str, to_owned_string};
use crate::media::{AUDIO_MAX_BUFFER_SAMPLES, OPUS_FRAME_SAMPLES, OPUS_SAMPLE_RATE, opus_frame_duration_us};

verus! {

/// The channel count used for alignment: zero counts as one.
pub open spec fn align_channels(channels: int) -> int {
    if channels < 1 { 1 } else { channels }
}

/// Samples dropped from the front of a backlog of `len` samples so that at
/// most `AUDIO_MAX_BUFFER_SAMPLES` stay, rounded down to whole frames of
/// interleaved samples.
pub open spec fn aligned_drop(len: int, channels: int) -> int {
    if len > AUDIO_MAX_BUFFER_SAMPLES {
        let excess = len - AUDIO_MAX_BUFFER_SAMPLES;
        excess - excess % align_channels(channels)
    } else {
        0
    }
}

/// Microseconds of audio in `dropped` interleaved samples, rounded down.
pub open spec fn drop_advance_us(dropped: int, channels: int) -> int {
    (dropped / align_channels(channels)) * 1_000_000 / (OPUS_SAMPLE_RATE as int)
}

/// `a + b`, held at `u64::MAX`.
pub open spec fn saturating_sum(a: u64, b: int) -> u64 {
    if a + b > u64::MAX { u64::MAX } else { (a + b) as u64 }
}

/// The timestamp of the first sample waiting after a chunk stamped
/// `timestamp_us` arrives: the chunk's own stamp when nothing was waiting.
pub open spec fn start_stamp(next: Option<u64>, waiting: nat, timestamp_us: u64) -> u64 {
    match next {
        Some(t) => if waiting == 0 { timestamp_us } else { t },
        None => timestamp_us,
    }
}

/// Interleaved samples waiting to be framed, with the timestamp of the next
/// frame to go out.
pub struct PcmAccumulator {
    pcm: Vec<i16>,
    next_timestamp_us: Option<u64>,
    channels: usize,
}

impl PcmAccumulator {
    #[verifier::type_invariant]
    spec fn frame_fits(self) -> bool {
        self.channels * OPUS_FRAME_SAMPLES <= usize::MAX
    }

    /// The samples waiting, oldest first.
    pub closed spec fn samples(self) -> Seq<i16> {
        self.pcm@
    }

    /// The timestamp of the next frame, once one is known.
    pub closed spec fn next_timestamp(self) -> Option<u64> {
        self.next_timestamp_us
    }

    /// Interleaved channels per sample frame.
    pub closed spec fn channel_count(self) -> nat {
        self.channels as nat
    }

    /// Samples (all channels) in one Opus frame.
    pub open spec fn frame_len(self) -> int {
        self.channel_count() * OPUS_FRAME_SAMPLES
    }

    /// An empty accumulator for `channels` interleaved channels.
    pub fn new(channels: usize) -> (r: Self)
        requires
            channels * OPUS_FRAME_SAMPLES <= usize::MAX,
        ensures
            r.samples() == Seq::<i16>::empty(),
            r.next_timestamp() is None,
            r.channel_count() == channels,
    {
        PcmAccumulator { pcm: Vec::new(), next_timestamp_us: None, channels }
    }

    /// Appends a captured chunk stamped `timestamp_us`. When more than
    /// `AUDIO_MAX_BUFFER_SAMPLES` then wait, the oldest whole sample frames
    /// beyond that bound are dropped and the next timestamp moves past them.
    pub fn ingest(&mut self, timestamp_us: u64, samples: &Vec<i16>)
        requires
            old(self).samples().len() + samples@.len() <= u64::MAX / 1_000_000,
        ensures
            ({
                let joined = old(self).samples() + samples@;
                let d = aligned_drop(joined.len() as int, old(self).channel_count() as int);
                let start = start_stamp(
                    old(self).next_timestamp(),
                    old(self).samples().len(),
                    timestamp_us,
                );
                &&& final(self).samples() == joined.skip(d)
                &&& final(self).next_timestamp() == Some(
                    saturating_sum(start, drop_advance_us(d, old(self).channel_count() as int)),
                )
                &&& d % align_channels(old(self).channel_count() as int) == 0
                &&& final(self).samples().len() < AUDIO_MAX_BUFFER_SAMPLES + align_channels(
                    old(self).channel_count() as int,
                ) || final(self).samples() == joined
            }),
            final(self).channel_count() == old(self).channel_count(),
    {
        proof {
            use_type_invariant(&*self);
        }
        let start: u64 = match self.next_timestamp_us {
            Some(t) => if self.pcm.len() == 0 { timestamp_us } else { t },
            None => timestamp_us,
        };
        let ghost old_pcm = self.pcm@;
        let mut joined: Vec<i16> = Vec::new();
        let mut i: usize = 0;
        while i < self.pcm.len()
            invariant
                i <= self.pcm.len(),
                self.pcm@ == old_pcm,
                joined@ == old_pcm.take(i as int),
            decreases self.pcm.len() - i,
        {
            joined.push(self.pcm[i]);
            i = i + 1;
        }
        let mut k: usize = 0;
        while k < samples.len()
            invariant
                k <= samples.len(),
                joined@ == old_pcm + samples@.take(k as int),
            decreases samples.len() - k,
        {
            joined.push(samples[k]);
            proof {
                assert(samples@.take(k + 1) == samples@.take(k as int).push(samples@[k as int]));
            }
            k = k + 1;
        }
        proof {
            assert(old_pcm.take(old_pcm.len() as int) == old_pcm);
            assert(samples@.take(samples@.len() as int) == samples@);
        }
        let len = joined.len();
        let ch: usize = if self.channels == 0 { 1 } else { self.channels };
        if len > AUDIO_MAX_BUFFER_SAMPLES {
            let excess = len - AUDIO_MAX_BUFFER_SAMPLES;
            assert(excess % ch <= excess) by (nonlinear_arith)
                requires
                    ch >= 1,
            ;
            let aligned = excess - excess % ch;
            let mut kept: Vec<i16> = Vec::new();
            let mut j: usize = aligned;
            while j < len
                invariant
                    aligned <= j <= len,
                    len == joined@.len(),
                    kept@ == joined@.subrange(aligned as int, j as int),
                decreases len - j,
            {
                kept.push(joined[j]);
                proof {
                    assert(joined@.subrange(aligned as int, j + 1) == joined@.subrange(
                        aligned as int,
                        j as int,
                    ).push(joined@[j as int]));
                }
                j = j + 1;
            }
            let frames = aligned / ch;
            assert(frames <= len);
            assert((frames as int) * 1_000_000 <= u64::MAX) by (nonlinear_arith)
                requires
                    frames <= len,
                    len <= u64::MAX / 1_000_000,
            ;
            let advance: u64 = (frames as u64) * 1_000_000 / (OPUS_SAMPLE_RATE as u64);
            self.pcm = kept;
            self.next_timestamp_us = Some(start.saturating_add(advance));
            proof {
                assert(joined@.subrange(aligned as int, len as int) == joined@.skip(aligned as int));
                let e = excess as int;
                let c = ch as int;
                assert(e % c < c) by (nonlinear_arith)
                    requires
                        c >= 1,
                ;
                assert((e - e % c) % c == 0) by (nonlinear_arith)
                    requires
                        c >= 1,
                ;
            }
        } else {
            self.pcm = joined;
            self.next_timestamp_us = Some(start);
            proof {
                assert(joined@.skip(0) == joined@);
            }
        }
    }

    /// Number of samples waiting.
    pub fn pending(&self) -> (r: usize)
        ensures
            r == self.samples().len(),
    {
        self.pcm.len()
    }

    /// The timestamp of the next frame, once one is known.
    pub fn peek_timestamp(&self) -> (r: Option<u64>)
        ensures
            r == self.next_timestamp(),
    {
        self.next_timestamp_us
    }

    /// Takes the oldest whole Opus frame of samples, if one is waiting.
    pub fn take_frame(&mut self) -> (r: Option<Vec<i16>>)
        ensures
            old(self).samples().len() >= old(self).frame_len() ==> {
                &&& r matches Some(f)
                &&& r->0@ == old(self).samples().take(old(self).frame_len())
                &&& final(self).samples() == old(self).samples().skip(old(self).frame_len())
            },
            old(self).samples().len() < old(self).frame_len() ==> {
                &&& r is None
                &&& final(self).samples() == old(self).samples()
            },
            final(self).next_timestamp() == old(self).next_timestamp(),
            final(self).channel_count() == old(self).channel_count(),
    {
        proof {
            use_type_invariant(&*self);
        }
        let frame_len = OPUS_FRAME_SAMPLES * self.channels;
        let len = self.pcm.len();
        if len < frame_len {
            return None;
        }
        let mut frame: Vec<i16> = Vec::new();
        let mut rest: Vec<i16> = Vec::new();
        let mut i: usize = 0;
        while i < len
            invariant
                i <= len,
                len == self.pcm@.len(),
                frame_len <= len,
                i <= frame_len ==> frame@ == self.pcm@.take(i as int) && rest@.len() == 0,
                i > frame_len ==> frame@ == self.pcm@.take(frame_len as int)
                    && rest@ == self.pcm@.subrange(frame_len as int, i as int),
            decreases len - i,
        {
            if i < frame_len {
                frame.push(self.pcm[i]);
                proof {
                    assert(self.pcm@.take(i + 1) == self.pcm@.take(i as int).push(self.pcm@[i as int]));
                }
            } else {
                rest.push(self.pcm[i]);
                proof {
                    assert(self.pcm@.subrange(frame_len as int, i + 1) == self.pcm@.subrange(
                        frame_len as int,
                        i as int,
                    ).push(self.pcm@[i as int]));
                }
            }
            i = i + 1;
        }
        proof {
            if len == frame_len {
                assert(self.pcm@.skip(frame_len as int) == rest@);
            } else {
                assert(self.pcm@.subrange(frame_len as int, len as int) == self.pcm@.skip(frame_len as int));
            }
        }
        self.pcm = rest;
        Some(frame)
    }

    /// The timestamp of the frame going out now: the running timestamp, or
    /// `fallback_us` (time since capture began) when none is known yet. The
    /// running timestamp then moves one frame duration on.
    pub fn stamp_frame(&mut self, fallback_us: u64) -> (ts: u64)
        ensures
            ts == (match old(self).next_timestamp() {
                Some(t) => t,
                None => fallback_us,
            }),
            final(self).next_timestamp() == Some(saturating_sum(ts, 5000)),
            final(self).samples() == old(self).samples(),
            final(self).channel_count() == old(self).channel_count(),
    {
        proof {
            use_type_invariant(&*self);
        }
        let ts = match self.next_timestamp_us {
            Some(t) => t,
            None => fallback_us,
        };
        let step = opus_frame_duration_us();
        self.next_timestamp_us = Some(ts.saturating_add(step));
        ts
    }
}

/// Format tag of integer PCM audio.
pub const WAVE_FORMAT_PCM: u32 = 1;

/// Format tag of IEEE float audio.
pub const WAVE_FORMAT_IEEE_FLOAT: u32 = 3;

/// Format tag of a format whose kind its sub-format names.
pub const WAVE_FORMAT_EXTENSIBLE: u32 = 65534;

/// How captured samples are stored.
#[derive(Debug, Clone, Copy, PartialEq, Eq, Structural)]
pub enum PcmFormat {
    I16,
    I32,
    F32,
}

/// The sub-format of an extensible wave format, as far as it matters here.
#[derive(Debug, Clone, Copy, PartialEq, Eq, Structural)]
pub enum WaveSubFormat {
    IeeeFloat,
    Pcm,
    Other,
}

/// The integer sample format of the bit depth `bits`, or the error for it.
pub open spec fn pcm_depth(bits: u16) -> Result<PcmFormat, Seq<char>> {
    if bits == 16 {
        Ok(PcmFormat::I16)
    } else if bits == 32 {
        Ok(PcmFormat::I32)
    } else {
        Err("Unsupported PCM bit depth"@)
    }
}

/// The sample format of a wave format with tag `tag`, bit depth `bits` and
/// sub-format `sub`, or the error message for it.
pub open spec fn wave_pcm_format(tag: u16, bits: u16, sub: WaveSubFormat) -> Result<
    PcmFormat,
    Seq<char>,
> {
    if tag == WAVE_FORMAT_PCM {
        pcm_depth(bits)
    } else if tag == WAVE_FORMAT_IEEE_FLOAT {
        Ok(PcmFormat::F32)
    } else if tag == WAVE_FORMAT_EXTENSIBLE {
        match sub {
            WaveSubFormat::IeeeFloat => Ok(PcmFormat::F32),
            WaveSubFormat::Pcm => pcm_depth(bits),
            WaveSubFormat::Other => Err("Unsupported audio subformat"@),
        }
    } else {
        Err("Unsupported audio format tag: "@ + decimal(tag as nat))
    }
}

/// `r` is the outcome `spec`, an error by its text.
pub open spec fn format_outcome(r: Result<PcmFormat, String>, spec: Result<PcmFormat, Seq<char>>) -> bool {
    match spec {
        Ok(f) => r matches Ok(g) && g == f,
        Err(m) => r matches Err(e) && e@ == m,
    }
}

fn depth_format(bits: u16) -> (r: Result<PcmFormat, String>)
    ensures
        format_outcome(r, pcm_depth(bits)),
{
    if bits == 16 {
        Ok(PcmFormat::I16)
    } else if bits == 32 {
        Ok(PcmFormat::I32)
    } else {
        Err(to_owned_string("Unsupported PCM bit depth"))
    }
}

/// The sample format of a captured wave format.
pub fn pcm_format(tag: u16, bits_per_sample: u16, sub_format: WaveSubFormat) -> (r: Result<
    PcmFormat,
    String,
>)
    ensures
        format_outcome(r, wave_pcm_format(tag, bits_per_sample, sub_format)),
{
    let t = tag as u32;
    if t == WAVE_FORMAT_PCM {
        depth_format(bits_per_sample)
    } else if t == WAVE_FORMAT_IEEE_FLOAT {
        Ok(PcmFormat::F32)
    } else if t == WAVE_FORMAT_EXTENSIBLE {
        match sub_format {
            WaveSubFormat::IeeeFloat => Ok(PcmFormat::F32),
            WaveSubFormat::Pcm => depth_format(bits_per_sample),
            WaveSubFormat::Other => Err(to_owned_string("Unsupported audio subformat")),
        }
    } else {
        let mut m = to_owned_string("Unsupported audio format tag: ");
        let n = decimal_string(tag as u64);
        append_str(&mut m, n.as_str());
        Err(m)
    }
}

} // verus!
