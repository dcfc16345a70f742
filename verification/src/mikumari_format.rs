//! Codec for the tagged 64-bit data words of the front end.
//!
//! Bits [63:58] of every word hold a 6-bit type tag; the remaining 58 bits
//! are payload whose layout depends on the tag. Leading- and trailing-edge
//! hit words are bit-identical except for the tag.

use vstd::prelude::*;

verus! {

/// Tag of a leading-edge hit word.
pub const TDC_LEADING_DATA: u64 = 0x0B;
/// Tag of a trailing-edge hit word.
pub const TDC_TRAILING_DATA: u64 = 0x0D;
/// Tag of the first heartbeat delimiter (frame number and time offset).
pub const DELIMETER1: u64 = 0x1C;
/// Tag of the second heartbeat delimiter (frame data size).
pub const DELIMETER2: u64 = 0x1E;

/// Ring-item type used for items that carry one frame of raw words. The
/// value is this library's own designation, chosen above the record format's
/// reserved control types and its analysis-pipeline types; producer and
/// consumer agree on it only through this constant.
pub const MIKUMARI_FRAME_ITEM_TYPE: u32 = 32771;

/// The 6-bit type tag of a word: its top six bits.
pub open spec fn spec_tag(w: u64) -> u64 {
    w >> 58
}

/// The word a first heartbeat delimiter encodes to: tag at [63:58],
/// time offset at [39:24], frame number in the low 24 bits. An oversized
/// frame number spills into the time-offset bits, deterministically.
pub open spec fn spec_delim1_word(time_offset: u16, frame_number: u32) -> u64 {
    (DELIMETER1 << 58) | ((time_offset as u64) << 24) | (frame_number as u64)
}

/// The frame number field of a first-delimiter word: its low 24 bits.
pub open spec fn spec_d1_frame(w: u64) -> u64 {
    w & 0xffffff
}

/// The time-offset field of a first-delimiter word: bits [39:24].
pub open spec fn spec_d1_time_offset(w: u64) -> u64 {
    (w >> 24) & 0xffff
}

/// The word a second heartbeat delimiter encodes to: tag at [63:58] and the
/// data size written into two overlapping placements, at bit 20 and at bit 0.
/// The dual placement mirrors the hardware's documented layout.
pub open spec fn spec_delim2_word(data_size: u32) -> u64 {
    (DELIMETER2 << 58) | (((data_size as u64) << 20) | (data_size as u64))
}

/// The data-size field of a second-delimiter word: its low 20 bits.
pub open spec fn spec_d2_datasize(w: u64) -> u64 {
    w & 0xfffff
}

/// The word a leading-edge hit encodes to: tag at [63:58], channel at
/// [57:51], time over threshold at [50:29], time in the low 29 bits.
/// Oversized fields spill into their neighbours, deterministically.
pub open spec fn spec_leading_word(chan: u8, tot: u32, time: u32) -> u64 {
    (TDC_LEADING_DATA << 58) | ((chan as u64) << 51) | ((tot as u64) << 29) | (time as u64)
}

/// The word a trailing-edge hit encodes to: the leading-edge word with the
/// leading tag bits cleared and the trailing tag written in their place.
pub open spec fn spec_trailing_word(chan: u8, tot: u32, time: u32) -> u64 {
    (spec_leading_word(chan, tot, time) & !(TDC_LEADING_DATA << 58)) | (TDC_TRAILING_DATA << 58)
}

/// The channel field of a hit word: bits [57:51].
pub open spec fn spec_channel(w: u64) -> u8 {
    ((w >> 51) & 0x7f) as u8
}

/// The time-over-threshold field of a hit word: bits [50:29].
pub open spec fn spec_tot(w: u64) -> u32 {
    ((w >> 29) & 0x3fffff) as u32
}

/// The time field of a hit word: its low 29 bits.
pub open spec fn spec_time(w: u64) -> u32 {
    (w & 0x1fffffff) as u32
}

/// A first heartbeat delimiter and the word it wraps.
pub struct Delimeter1 {
    delimeter: u64,
}

/// A second heartbeat delimiter and the word it wraps.
pub struct Delimeter2 {
    delimeter: u64,
}

/// A high-resolution leading-edge hit word.
pub struct HRTDCLeading {
    leading: u64,
}

/// A high-resolution trailing-edge hit word. Identical layout to
/// [`HRTDCLeading`] except for the type tag.
pub struct HRTDCTrailing {
    trailing: u64,
}

/// A low-resolution leading-edge hit word; same layout as the
/// high-resolution variant.
pub struct LRTDCLeading {
    leading: u64,
}

/// A low-resolution trailing-edge hit word; same layout as the
/// high-resolution variant.
pub struct LRTDCTrailing {
    trailing: u64,
}

impl View for Delimeter1 {
    type V = u64;

    closed spec fn view(&self) -> u64 {
        self.delimeter
    }
}

impl View for Delimeter2 {
    type V = u64;

    closed spec fn view(&self) -> u64 {
        self.delimeter
    }
}

impl View for HRTDCLeading {
    type V = u64;

    closed spec fn view(&self) -> u64 {
        self.leading
    }
}

impl View for HRTDCTrailing {
    type V = u64;

    closed spec fn view(&self) -> u64 {
        self.trailing
    }
}

impl Delimeter1 {
    /// Packs a time offset and a frame number under the first delimiter tag.
    pub fn new(time_offset: u16, frame_number: u32) -> (r: Delimeter1)
        ensures
            r@ == spec_delim1_word(time_offset, frame_number),
    {
        let value: u64 = (DELIMETER1 << 58) | ((time_offset as u64) << 24) | (frame_number
            as u64);
        Delimeter1 { delimeter: value }
    }

    /// Wraps an already-encoded word.
    pub fn fromu64(data: u64) -> (r: Delimeter1)
        ensures
            r@ == data,
    {
        Delimeter1 { delimeter: data }
    }

    /// The raw word.
    pub fn get(&self) -> (r: u64)
        ensures
            r == self@,
    {
        self.delimeter
    }

    /// The frame number field.
    pub fn frame(&self) -> (r: u64)
        ensures
            r == spec_d1_frame(self@),
    {
        self.delimeter & 0xffffff
    }

    /// The time-offset field.
    pub fn time_offset(&self) -> (r: u64)
        ensures
            r == spec_d1_time_offset(self@),
    {
        (self.delimeter >> 24) & 0xffff
    }
}

impl Delimeter2 {
    /// Packs a data size under the second delimiter tag, into both of its
    /// documented overlapping placements.
    pub fn new(data_size: u32) -> (r: Delimeter2)
        ensures
            r@ == spec_delim2_word(data_size),
    {
        let s = data_size as u64;
        let value: u64 = (DELIMETER2 << 58) | ((s << 20) | s);
        Delimeter2 { delimeter: value }
    }

    /// Wraps an already-encoded word.
    pub fn fromu64(data: u64) -> (r: Delimeter2)
        ensures
            r@ == data,
    {
        Delimeter2 { delimeter: data }
    }

    /// The raw word.
    pub fn get(&self) -> (r: u64)
        ensures
            r == self@,
    {
        self.delimeter
    }

    /// The data-size field (the low placement).
    pub fn datasize(&self) -> (r: u64)
        ensures
            r == spec_d2_datasize(self@),
    {
        self.delimeter & 0xfffff
    }
}

#[allow(non_snake_case)]
impl HRTDCLeading {
    /// Packs a channel, a time over threshold and a time under the
    /// leading-edge tag.
    pub fn new(chan: u8, tot: u32, time: u32) -> (r: HRTDCLeading)
        ensures
            r@ == spec_leading_word(chan, tot, time),
    {
        let value: u64 = (TDC_LEADING_DATA << 58) | ((chan as u64) << 51) | ((tot as u64) << 29)
            | (time as u64);
        HRTDCLeading { leading: value }
    }

    /// Wraps an already-encoded word.
    pub fn fromu64(data: u64) -> (r: HRTDCLeading)
        ensures
            r@ == data,
    {
        HRTDCLeading { leading: data }
    }

    /// The channel field.
    pub fn channel(&self) -> (r: u8)
        ensures
            r == spec_channel(self@),
    {
        ((self.leading >> 51) & 0x7f) as u8
    }

    /// The time-over-threshold field.
    pub fn TOT(&self) -> (r: u32)
        ensures
            r == spec_tot(self@),
    {
        ((self.leading >> 29) & 0x3fffff) as u32
    }

    /// The time field.
    pub fn Time(&self) -> (r: u32)
        ensures
            r == spec_time(self@),
    {
        (self.leading & 0x1FFFFFFF) as u32
    }

    /// The raw word.
    pub fn get(&self) -> (r: u64)
        ensures
            r == self@,
    {
        self.leading
    }
}

#[allow(non_snake_case)]
impl HRTDCTrailing {
    /// Packs a channel, a time over threshold and a time under the
    /// trailing-edge tag, by retagging the leading-edge encoding.
    pub fn new(chan: u8, tot: u32, time: u32) -> (r: HRTDCTrailing)
        ensures
            r@ == spec_trailing_word(chan, tot, time),
    {
        let leading = HRTDCLeading::new(chan, tot, time);
        let mut data = leading.get();
        data &= !(TDC_LEADING_DATA << 58);
        data |= TDC_TRAILING_DATA << 58;
        HRTDCTrailing { trailing: data }
    }

    /// Wraps an already-encoded word.
    pub fn fromu64(data: u64) -> (r: HRTDCTrailing)
        ensures
            r@ == data,
    {
        HRTDCTrailing { trailing: data }
    }

    /// The channel field; the layout is shared with the leading-edge word.
    pub fn channel(&self) -> (r: u8)
        ensures
            r == spec_channel(self@),
    {
        let leading = HRTDCLeading::fromu64(self.trailing);
        leading.channel()
    }

    /// The time-over-threshold field.
    pub fn TOT(&self) -> (r: u32)
        ensures
            r == spec_tot(self@),
    {
        let leading = HRTDCLeading::fromu64(self.trailing);
        leading.TOT()
    }

    /// The time field.
    pub fn Time(&self) -> (r: u32)
        ensures
            r == spec_time(self@),
    {
        let leading = HRTDCLeading::fromu64(self.trailing);
        leading.Time()
    }

    /// The raw word.
    pub fn get(&self) -> (r: u64)
        ensures
            r == self@,
    {
        self.trailing
    }
}

/// A decoded datum, at the specification level: the variant the tag selects,
/// together with the whole raw word.
pub enum DatumView {
    Heartbeat0(u64),
    Heartbeat1(u64),
    LeadingEdge(u64),
    TrailingEdge(u64),
    Other(u64),
}

/// What any 64-bit word decodes to. Total: a word whose tag matches no known
/// type decodes to `Other`, never to an error.
pub open spec fn spec_decode(w: u64) -> DatumView {
    if spec_tag(w) == TDC_LEADING_DATA {
        DatumView::LeadingEdge(w)
    } else if spec_tag(w) == TDC_TRAILING_DATA {
        DatumView::TrailingEdge(w)
    } else if spec_tag(w) == DELIMETER1 {
        DatumView::Heartbeat0(w)
    } else if spec_tag(w) == DELIMETER2 {
        DatumView::Heartbeat1(w)
    } else {
        DatumView::Other(w)
    }
}

/// A datum decoded from one raw word.
pub enum MikumariDatum {
    Heartbeat0(Delimeter1),
    Heartbeat1(Delimeter2),
    LeadingEdge(HRTDCLeading),
    TrailingEdge(HRTDCTrailing),
    Other(u64),
}

impl View for MikumariDatum {
    type V = DatumView;

    closed spec fn view(&self) -> DatumView {
        match self {
            MikumariDatum::Heartbeat0(d) => DatumView::Heartbeat0(d@),
            MikumariDatum::Heartbeat1(d) => DatumView::Heartbeat1(d@),
            MikumariDatum::LeadingEdge(d) => DatumView::LeadingEdge(d@),
            MikumariDatum::TrailingEdge(d) => DatumView::TrailingEdge(d@),
            MikumariDatum::Other(w) => DatumView::Other(*w),
        }
    }
}

impl MikumariDatum {
    /// Decodes one raw word by its 6-bit tag. Total; an unknown tag yields
    /// `Other` with the word kept opaquely.
    pub fn from_u64(w: u64) -> (r: MikumariDatum)
        ensures
            r@ == spec_decode(w),
            r matches MikumariDatum::Heartbeat0(d) ==> d@ == w && spec_decode(w)
                == DatumView::Heartbeat0(w),
            r matches MikumariDatum::Heartbeat1(d) ==> d@ == w && spec_decode(w)
                == DatumView::Heartbeat1(w),
            r matches MikumariDatum::LeadingEdge(d) ==> d@ == w && spec_decode(w)
                == DatumView::LeadingEdge(w),
            r matches MikumariDatum::TrailingEdge(d) ==> d@ == w && spec_decode(w)
                == DatumView::TrailingEdge(w),
            r matches MikumariDatum::Other(v) ==> v == w && spec_decode(w) == DatumView::Other(w),
    {
        let dtype: u64 = w >> 58;
        if dtype == TDC_LEADING_DATA {
            MikumariDatum::LeadingEdge(HRTDCLeading::fromu64(w))
        } else if dtype == TDC_TRAILING_DATA {
            MikumariDatum::TrailingEdge(HRTDCTrailing::fromu64(w))
        } else if dtype == DELIMETER1 {
            MikumariDatum::Heartbeat0(Delimeter1::fromu64(w))
        } else if dtype == DELIMETER2 {
            MikumariDatum::Heartbeat1(Delimeter2::fromu64(w))
        } else {
            MikumariDatum::Other(w)
        }
    }
}

/// Round trip for the first heartbeat delimiter: a word packed from fields
/// within their declared widths decodes to `Heartbeat0` and its fields read
/// back unchanged.
pub proof fn lemma_delim1_round_trip(time_offset: u16, frame_number: u32)
    requires
        frame_number < 0x100_0000,
    ensures
        spec_decode(spec_delim1_word(time_offset, frame_number)) == DatumView::Heartbeat0(
            spec_delim1_word(time_offset, frame_number),
        ),
        spec_d1_frame(spec_delim1_word(time_offset, frame_number)) == frame_number,
        spec_d1_time_offset(spec_delim1_word(time_offset, frame_number)) == time_offset,
{
    assert(spec_tag(spec_delim1_word(time_offset, frame_number)) == DELIMETER1) by (bit_vector);
    assert(spec_d1_frame(spec_delim1_word(time_offset, frame_number)) == frame_number)
        by (bit_vector)
        requires
            frame_number < 0x100_0000,
    ;
    assert(spec_d1_time_offset(spec_delim1_word(time_offset, frame_number)) == time_offset)
        by (bit_vector)
        requires
            frame_number < 0x100_0000,
    ;
}

/// Round trip for the second heartbeat delimiter: a data size within its
/// 20-bit width decodes to `Heartbeat1` and reads back unchanged from both
/// of its documented overlapping placements.
pub proof fn lemma_delim2_round_trip(data_size: u32)
    requires
        data_size < 0x10_0000,
    ensures
        spec_decode(spec_delim2_word(data_size)) == DatumView::Heartbeat1(
            spec_delim2_word(data_size),
        ),
        spec_d2_datasize(spec_delim2_word(data_size)) == data_size,
        (spec_delim2_word(data_size) >> 20) & 0xfffff == data_size,
{
    assert(spec_tag(spec_delim2_word(data_size)) == DELIMETER2) by (bit_vector);
    assert(spec_d2_datasize(spec_delim2_word(data_size)) == data_size) by (bit_vector)
        requires
            data_size < 0x10_0000,
    ;
    assert((spec_delim2_word(data_size) >> 20) & 0xfffff == data_size) by (bit_vector)
        requires
            data_size < 0x10_0000,
    ;
}

/// Round trip for a leading-edge hit: a word packed from fields within their
/// declared widths decodes to `LeadingEdge` and its fields read back
/// unchanged.
pub proof fn lemma_leading_round_trip(chan: u8, tot: u32, time: u32)
    requires
        chan < 0x80,
        tot < 0x40_0000,
        time < 0x2000_0000,
    ensures
        spec_decode(spec_leading_word(chan, tot, time)) == DatumView::LeadingEdge(
            spec_leading_word(chan, tot, time),
        ),
        spec_channel(spec_leading_word(chan, tot, time)) == chan,
        spec_tot(spec_leading_word(chan, tot, time)) == tot,
        spec_time(spec_leading_word(chan, tot, time)) == time,
{
    assert(spec_tag(spec_leading_word(chan, tot, time)) == TDC_LEADING_DATA) by (bit_vector)
        requires
            chan < 0x80,
            tot < 0x40_0000,
            time < 0x2000_0000,
    ;
    assert(spec_channel(spec_leading_word(chan, tot, time)) == chan) by (bit_vector)
        requires
            chan < 0x80,
            tot < 0x40_0000,
            time < 0x2000_0000,
    ;
    assert(spec_tot(spec_leading_word(chan, tot, time)) == tot) by (bit_vector)
        requires
            tot < 0x40_0000,
            time < 0x2000_0000,
    ;
    assert(spec_time(spec_leading_word(chan, tot, time)) == time) by (bit_vector)
        requires
            time < 0x2000_0000,
    ;
}

/// Round trip for a trailing-edge hit: retagging preserves every payload
/// field, and the word decodes to `TrailingEdge`.
pub proof fn lemma_trailing_round_trip(chan: u8, tot: u32, time: u32)
    requires
        chan < 0x80,
        tot < 0x40_0000,
        time < 0x2000_0000,
    ensures
        spec_decode(spec_trailing_word(chan, tot, time)) == DatumView::TrailingEdge(
            spec_trailing_word(chan, tot, time),
        ),
        spec_channel(spec_trailing_word(chan, tot, time)) == chan,
        spec_tot(spec_trailing_word(chan, tot, time)) == tot,
        spec_time(spec_trailing_word(chan, tot, time)) == time,
{
    assert(spec_tag(spec_trailing_word(chan, tot, time)) == TDC_TRAILING_DATA) by (bit_vector)
        requires
            chan < 0x80,
            tot < 0x40_0000,
            time < 0x2000_0000,
    ;
    assert(spec_channel(spec_trailing_word(chan, tot, time)) == chan) by (bit_vector)
        requires
            chan < 0x80,
            tot < 0x40_0000,
            time < 0x2000_0000,
    ;
    assert(spec_tot(spec_trailing_word(chan, tot, time)) == tot) by (bit_vector)
        requires
            tot < 0x40_0000,
            time < 0x2000_0000,
    ;
    assert(spec_time(spec_trailing_word(chan, tot, time)) == time) by (bit_vector)
        requires
            time < 0x2000_0000,
    ;
}

/// Tag discrimination: the leading- and trailing-edge encodings of the same
/// fields agree on all 58 payload bits and differ only in the tag, and each
/// decodes to its own variant, never to the other's.
pub proof fn lemma_edge_tag_discrimination(chan: u8, tot: u32, time: u32)
    requires
        chan < 0x80,
        tot < 0x40_0000,
        time < 0x2000_0000,
    ensures
        spec_leading_word(chan, tot, time) & 0x03ff_ffff_ffff_ffff == spec_trailing_word(
            chan,
            tot,
            time,
        ) & 0x03ff_ffff_ffff_ffff,
        spec_leading_word(chan, tot, time) != spec_trailing_word(chan, tot, time),
        spec_decode(spec_leading_word(chan, tot, time)) matches DatumView::LeadingEdge(_),
        spec_decode(spec_trailing_word(chan, tot, time)) matches DatumView::TrailingEdge(_),
{
    assert(spec_leading_word(chan, tot, time) & 0x03ff_ffff_ffff_ffff == spec_trailing_word(
        chan,
        tot,
        time,
    ) & 0x03ff_ffff_ffff_ffff) by (bit_vector);
    assert(spec_leading_word(chan, tot, time) != spec_trailing_word(chan, tot, time))
        by (bit_vector);
    lemma_leading_round_trip(chan, tot, time);
    lemma_trailing_round_trip(chan, tot, time);
}

/// Round trip for unrecognized words: a word whose tag matches no known type
/// decodes to `Other` carrying the word itself, unchanged.
pub proof fn lemma_other_round_trip(w: u64)
    requires
        spec_tag(w) != TDC_LEADING_DATA,
        spec_tag(w) != TDC_TRAILING_DATA,
        spec_tag(w) != DELIMETER1,
        spec_tag(w) != DELIMETER2,
    ensures
        spec_decode(w) == DatumView::Other(w),
{
}

} // verus!
