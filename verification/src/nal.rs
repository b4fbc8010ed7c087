//! H.264 NAL units in AVCC framing (each unit behind a 4-byte big-endian
//! length), and the decisions of a decoder that waits for its parameter
//! sets before it decodes frames.

use vstd::prelude::*;

verus! {

pub const NAL_SLICE: u8 = 1;
pub const NAL_IDR: u8 = 5;
pub const NAL_SEI: u8 = 6;
pub const NAL_SPS: u8 = 7;
pub const NAL_PPS: u8 = 8;
pub const NAL_AUD: u8 = 9;

/// The number a 4-byte big-endian prefix of `b` writes.
pub open spec fn be32(b: Seq<u8>) -> int {
    b[0] * 16777216 + b[1] * 65536 + b[2] * 256 + b[3]
}

/// The type of a NAL unit: the low five bits of its first byte.
pub open spec fn nal_type_of(nal: Seq<u8>) -> u8 {
    nal[0] & 0x1f
}

/// The non-empty NAL units of AVCC data, with their types, read from the
/// front until fewer than four bytes remain or a length runs past the end.
pub open spec fn avcc_units(data: Seq<u8>) -> Seq<(u8, Seq<u8>)>
    decreases data.len(),
{
    if data.len() < 4 {
        seq![]
    } else {
        let n = be32(data);
        if 4 + n > data.len() {
            seq![]
        } else {
            let nal = data.subrange(4, 4 + n);
            let rest = avcc_units(data.subrange(4 + n, data.len() as int));
            if n == 0 {
                rest
            } else {
                seq![(nal_type_of(nal), nal)] + rest
            }
        }
    }
}

/// The view of parsed units.
pub open spec fn unit_views(units: Seq<(u8, Vec<u8>)>) -> Seq<(u8, Seq<u8>)> {
    units.map_values(|u: (u8, Vec<u8>)| (u.0, u.1@))
}

/// The bytes `data[lo..hi]`.
pub fn copy_range(data: &[u8], lo: usize, hi: usize) -> (r: Vec<u8>)
    requires
        lo <= hi <= data@.len(),
    ensures
        r@ == data@.subrange(lo as int, hi as int),
{
    let mut r: Vec<u8> = Vec::new();
    let mut i = lo;
    while i < hi
        invariant
            lo <= i <= hi <= data@.len(),
            r@ == data@.subrange(lo as int, i as int),
        decreases hi - i,
    {
        r.push(data[i]);
        i = i + 1;
    }
    r
}

/// Splits AVCC data into its NAL units, each with its type.
pub fn parse_avcc_nalus(data: &[u8]) -> (r: Vec<(u8, Vec<u8>)>)
    ensures
        unit_views(r@) == avcc_units(data@),
{
    let mut nalus: Vec<(u8, Vec<u8>)> = Vec::new();
    let mut offset: usize = 0;
    proof {
        assert(data@.subrange(0, data@.len() as int) =~= data@);
        assert(unit_views(nalus@) + avcc_units(data@) =~= avcc_units(data@));
    }
    while data.len() - offset >= 4
        invariant
            offset <= data@.len(),
            unit_views(nalus@) + avcc_units(data@.subrange(offset as int, data@.len() as int))
                == avcc_units(data@),
        decreases data.len() - offset,
    {
        let ghost rest = data@.subrange(offset as int, data@.len() as int);
        let length: u64 = (data[offset] as u64) * 16777216 + (data[offset + 1] as u64) * 65536
            + (data[offset + 2] as u64) * 256 + (data[offset + 3] as u64);
        assert(length == be32(rest));
        offset = offset + 4;
        if length > (data.len() - offset) as u64 {
            proof {
                assert(avcc_units(rest) == Seq::<(u8, Seq<u8>)>::empty());
                assert(unit_views(nalus@) + avcc_units(rest) =~= unit_views(nalus@));
            }
            return nalus;
        }
        let len = length as usize;
        let nal = copy_range(data, offset, offset + len);
        let ghost old_units = nalus@;
        if len > 0 {
            let t = nal[0] & 0x1f;
            nalus.push((t, nal));
            proof {
                assert(unit_views(nalus@) =~= unit_views(old_units) + seq![(nal_type_of(nal@), nal@)]);
            }
        }
        offset = offset + len;
        proof {
            assert(rest.subrange(4, 4 + len as int) =~= nal@);
            assert(rest.subrange(4 + len as int, rest.len() as int) =~= data@.subrange(
                offset as int,
                data@.len() as int,
            ));
            if len > 0 {
                assert(unit_views(nalus@) + avcc_units(data@.subrange(offset as int, data@.len() as int))
                    =~= unit_views(old_units) + avcc_units(rest));
            }
        }
    }
    proof {
        let rest = data@.subrange(offset as int, data@.len() as int);
        assert(avcc_units(rest) == Seq::<(u8, Seq<u8>)>::empty());
        assert(unit_views(nalus@) + avcc_units(rest) =~= unit_views(nalus@));
    }
    nalus
}

/// The 4-byte big-endian writing of `n`.
pub open spec fn be32_bytes(n: nat) -> Seq<u8> {
    seq![
        ((n / 16777216) % 256) as u8,
        ((n / 65536) % 256) as u8,
        ((n / 256) % 256) as u8,
        (n % 256) as u8,
    ]
}

/// One NAL unit in AVCC framing: its length, then its bytes.
pub open spec fn avcc_framed(nal: Seq<u8>) -> Seq<u8> {
    be32_bytes(nal.len()) + nal
}

/// Frames one NAL unit for the decoder.
pub fn avcc_frame(nal: &[u8]) -> (r: Vec<u8>)
    requires
        nal@.len() <= 0xffff_ffff,
    ensures
        r@ == avcc_framed(nal@),
{
    let n: usize = nal.len();
    let mut r: Vec<u8> = Vec::new();
    r.push(((n / 16777216) % 256) as u8);
    r.push(((n / 65536) % 256) as u8);
    r.push(((n / 256) % 256) as u8);
    r.push((n % 256) as u8);
    let mut i: usize = 0;
    while i < n
        invariant
            n == nal@.len(),
            i <= n,
            r@ == be32_bytes(n as nat) + nal@.subrange(0, i as int),
        decreases n - i,
    {
        r.push(nal[i]);
        i = i + 1;
        proof {
            assert(nal@.subrange(0, i as int) =~= nal@.subrange(0, i - 1).push(nal@[i - 1]));
        }
    }
    proof {
        assert(nal@.subrange(0, n as int) =~= nal@);
    }
    r
}

proof fn lemma_be32_round_trip(n: nat)
    requires
        n <= 0xffff_ffff,
    ensures
        be32(be32_bytes(n)) == n,
{
    let b = be32_bytes(n);
    assert(b[0] == (n / 16777216) % 256);
    assert(b[1] == (n / 65536) % 256);
    assert(b[2] == (n / 256) % 256);
    assert(b[3] == n % 256);
    assert(((n / 16777216) % 256) * 16777216 + ((n / 65536) % 256) * 65536 + ((n / 256) % 256) * 256
        + n % 256 == n) by (nonlinear_arith)
        requires
            n <= 0xffff_ffff,
    {
        assert(n / 16777216 < 256);
        assert((n / 16777216) % 256 == n / 16777216);
        assert(n / 65536 == (n / 16777216) * 256 + (n / 65536) % 256);
        assert(n / 256 == (n / 65536) * 256 + (n / 256) % 256);
        assert(n == (n / 256) * 256 + n % 256);
    }
}

/// Framing a non-empty NAL unit and parsing it back gives the unit, with
/// its type, in front of whatever the following bytes parse to.
pub proof fn law_framed_unit_parses_back(nal: Seq<u8>, rest: Seq<u8>)
    requires
        0 < nal.len() <= 0xffff_ffff,
    ensures
        avcc_units(avcc_framed(nal) + rest) == seq![(nal_type_of(nal), nal)] + avcc_units(rest),
{
    let d = avcc_framed(nal) + rest;
    lemma_be32_round_trip(nal.len());
    assert(d.subrange(0, 4) =~= be32_bytes(nal.len()));
    assert(be32(d) == be32(be32_bytes(nal.len())));
    assert(d.subrange(4, 4 + nal.len() as int) =~= nal);
    assert(d.subrange(4 + nal.len() as int, d.len() as int) =~= rest);
}

/// The units of a frame payload: its AVCC units, or, when none parse, the
/// whole payload as one unit (Annex B data without length prefixes).
pub open spec fn payload_units(payload: Seq<u8>) -> Seq<(u8, Seq<u8>)> {
    if payload.len() == 0 {
        seq![]
    } else if avcc_units(payload).len() == 0 {
        seq![(nal_type_of(payload), payload)]
    } else {
        avcc_units(payload)
    }
}

/// The NAL units a renderer hands to its decoder for one payload.
pub fn nal_units_of_payload(payload: &[u8]) -> (r: Vec<(u8, Vec<u8>)>)
    ensures
        unit_views(r@) == payload_units(payload@),
{
    if payload.len() == 0 {
        let r: Vec<(u8, Vec<u8>)> = Vec::new();
        assert(unit_views(r@) =~= Seq::<(u8, Seq<u8>)>::empty());
        return r;
    }
    let units = parse_avcc_nalus(payload);
    if units.len() == 0 {
        let whole = copy_range(payload, 0, payload.len());
        let t = payload[0] & 0x1f;
        let mut r: Vec<(u8, Vec<u8>)> = Vec::new();
        r.push((t, whole));
        proof {
            assert(payload@.subrange(0, payload@.len() as int) =~= payload@);
            assert(unit_views(r@) =~= seq![(nal_type_of(payload@), payload@)]);
        }
        r
    } else {
        units
    }
}

/// What a decoder does with one NAL unit.
#[derive(Debug)]
pub enum NalAction {
    /// Both parameter sets are known: build the format description and the
    /// decoding session from them.
    CreateDecoder,
    /// A parameter set was kept; the other is still missing.
    Stored,
    /// Decode this AVCC-framed frame.
    Decode(Vec<u8>),
    /// A frame came before any decoding session exists.
    SkipFrame,
    /// Supplemental information, a delimiter, or another type.
    Ignore,
}

/// Abstract view of [`NalAction`].
pub ghost enum NalActionView {
    CreateDecoder,
    Stored,
    Decode(Seq<u8>),
    SkipFrame,
    Ignore,
}

impl NalAction {
    pub open spec fn view(&self) -> NalActionView {
        match self {
            NalAction::CreateDecoder => NalActionView::CreateDecoder,
            NalAction::Stored => NalActionView::Stored,
            NalAction::Decode(f) => NalActionView::Decode(f@),
            NalAction::SkipFrame => NalActionView::SkipFrame,
            NalAction::Ignore => NalActionView::Ignore,
        }
    }
}

/// The parameter sets a decoder has seen and whether its session exists.
pub struct NalDecoder {
    pub sps: Option<Vec<u8>>,
    pub pps: Option<Vec<u8>>,
    pub session_ready: bool,
}

/// Abstract view of [`NalDecoder`].
pub ghost struct NalDecoderView {
    pub sps: Option<Seq<u8>>,
    pub pps: Option<Seq<u8>>,
    pub session_ready: bool,
}

/// The view of an optional byte vector.
pub open spec fn bytes_view(b: Option<Vec<u8>>) -> Option<Seq<u8>> {
    match b {
        Some(v) => Some(v@),
        None => None,
    }
}

impl NalDecoder {
    pub open spec fn view(&self) -> NalDecoderView {
        NalDecoderView { sps: bytes_view(self.sps), pps: bytes_view(self.pps), session_ready: self.session_ready }
    }

    /// A decoder that has seen nothing.
    pub fn new() -> (d: Self)
        ensures
            d@ == (NalDecoderView { sps: None, pps: None, session_ready: false }),
    {
        NalDecoder { sps: None, pps: None, session_ready: false }
    }

    /// Records whether building the decoding session succeeded.
    pub fn set_session_ready(&mut self, ready: bool)
        ensures
            final(self)@ == (NalDecoderView { session_ready: ready, ..old(self)@ }),
    {
        self.session_ready = ready;
    }

    /// Handles one NAL unit of type `nal_type`.
    pub fn on_nal(&mut self, nal_type: u8, nal: &[u8]) -> (a: NalAction)
        requires
            nal@.len() <= 0xffff_ffff,
        ensures
            (final(self)@, a@) == nal_step(old(self)@, nal_type, nal@),
    {
        if nal_type == NAL_SPS {
            self.sps = Some(copy_range(nal, 0, nal.len()));
            proof {
                assert(nal@.subrange(0, nal@.len() as int) =~= nal@);
            }
            if self.pps.is_some() {
                NalAction::CreateDecoder
            } else {
                NalAction::Stored
            }
        } else if nal_type == NAL_PPS {
            self.pps = Some(copy_range(nal, 0, nal.len()));
            proof {
                assert(nal@.subrange(0, nal@.len() as int) =~= nal@);
            }
            if self.sps.is_some() {
                NalAction::CreateDecoder
            } else {
                NalAction::Stored
            }
        } else if nal_type == NAL_IDR || nal_type == NAL_SLICE {
            if !self.session_ready {
                NalAction::SkipFrame
            } else {
                NalAction::Decode(avcc_frame(nal))
            }
        } else {
            NalAction::Ignore
        }
    }
}

/// The decoder after a NAL unit, and what it does with the unit: a
/// parameter set is kept (replacing an earlier one) and the session is
/// built once both are known; a frame is decoded, framed again, once a
/// session exists.
pub open spec fn nal_step(d: NalDecoderView, nal_type: u8, nal: Seq<u8>) -> (NalDecoderView, NalActionView) {
    if nal_type == NAL_SPS {
        (
            NalDecoderView { sps: Some(nal), ..d },
            if d.pps.is_some() {
                NalActionView::CreateDecoder
            } else {
                NalActionView::Stored
            },
        )
    } else if nal_type == NAL_PPS {
        (
            NalDecoderView { pps: Some(nal), ..d },
            if d.sps.is_some() {
                NalActionView::CreateDecoder
            } else {
                NalActionView::Stored
            },
        )
    } else if nal_type == NAL_IDR || nal_type == NAL_SLICE {
        (d, if d.session_ready {
            NalActionView::Decode(avcc_framed(nal))
        } else {
            NalActionView::SkipFrame
        })
    } else {
        (d, NalActionView::Ignore)
    }
}

/// A frame handed to the decoder parses back to the same unit: the
/// decoder sees exactly the frame the renderer was given.
pub proof fn law_decoded_frame_is_the_unit(d: NalDecoderView, nal_type: u8, nal: Seq<u8>)
    requires
        0 < nal.len() <= 0xffff_ffff,
        nal_step(d, nal_type, nal).1 matches NalActionView::Decode(_),
    ensures
        nal_step(d, nal_type, nal).1 matches NalActionView::Decode(f) && avcc_units(f) == seq![(nal_type_of(nal), nal)],
{
    law_framed_unit_parses_back(nal, seq![]);
    assert(avcc_framed(nal) + Seq::<u8>::empty() =~= avcc_framed(nal));
    assert(seq![(nal_type_of(nal), nal)] + avcc_units(Seq::<u8>::empty()) =~= seq![(nal_type_of(nal), nal)]);
}

/// Frames never reach a decoder without a session, and parameter sets never
/// touch the session flag.
pub proof fn law_no_decoding_without_session(d: NalDecoderView, nal_type: u8, nal: Seq<u8>)
    requires
        !d.session_ready,
    ensures
        !(nal_step(d, nal_type, nal).1 is Decode),
        !nal_step(d, nal_type, nal).0.session_ready,
{
}

/// Once a decoding session exists, every IDR or slice unit is decoded: the
/// decoder is unchanged and gets the unit behind its 4-byte length, a frame
/// that parses back to exactly that unit.
pub proof fn law_frames_decoded_with_session(d: NalDecoderView, nal_type: u8, nal: Seq<u8>)
    requires
        d.session_ready,
        nal_type == NAL_IDR || nal_type == NAL_SLICE,
        0 < nal.len() <= 0xffff_ffff,
    ensures
        nal_step(d, nal_type, nal).0 == d,
        nal_step(d, nal_type, nal).1 matches NalActionView::Decode(f) && f.len() == nal.len() + 4
            && f.skip(4) == nal && avcc_units(f) == seq![(nal_type_of(nal), nal)],
{
    law_decoded_frame_is_the_unit(d, nal_type, nal);
    assert(avcc_framed(nal).skip(4) =~= nal);
}

} // verus!
