//! Coincidence-window event building.
//!
//! The `Glom` is a two-state accumulator: Empty (no event in progress) or
//! Open (accumulating, with the start time of the current event). Hits
//! within the configured coincidence interval of the event's start join it;
//! a hit beyond the interval flushes the event as a record and opens a new
//! one. Frame-boundary markers join the buffered entries unconditionally
//! and never open, extend or flush an event.

use vstd::prelude::*;

use rust_ringitem_format::RingItem;

use crate::mikumari_format::{
    DatumView,
    MikumariDatum,
    MIKUMARI_FRAME_ITEM_TYPE,
    spec_channel,
    spec_decode,
    spec_time,
    spec_tot,
};
use crate::orderer::{Hit, Orderer, sort_by_time};
use crate::ring_record::{
    ring_type,
    ring_bodyheader,
    ring_payload,
    ring_fields,
    ri_new_with_body_header,
    ri_add_u16,
    ri_add_u32,
    ri_add_u64,
    ri_type_id,
    ri_get_bodyheader,
    ri_payload,
    word_at,
    is_ne_reading,
    words_match_payload,
};

verus! {

/// The record type tag of a run-start control record.
pub const BEGIN_RUN_TYPE: u32 = 1;

/// The record type tag of a run-end control record.
pub const END_RUN_TYPE: u32 = 2;

/// The record type tag stamped on flushed physics events; matches the
/// record format's physics-event type.
pub const PHYSICS_EVENT_TYPE: u32 = 30;

/// The channel/edge tag word of a frame-boundary marker: all ones, outside
/// the legal hardware channel range.
pub const FRAME_BOUNDARY_CHAN: u16 = 0xffff;

/// The time-over-threshold stored with a frame-boundary marker: all ones.
pub const FRAME_BOUNDARY_TOT: u32 = 0xffff_ffff;

/// One buffered entry of an event: channel/edge tag word, time, and time
/// over threshold.
pub type Entry = (u16, u64, u32);

/// The most entries one flushed record can carry. The record container
/// counts its size — twelve header bytes plus the payload — in 32 bits, a
/// record's payload is the sixteen body-header bytes plus fourteen bytes per
/// entry, and each appended field advances the counter: this is the largest
/// entry count for which no advance can overflow it, the floor of
/// (2^32 - 1 - 28) / 14.
pub const MAX_EVENT_ENTRIES: usize = 306783376;

/// The error a builder operation signals instead of corrupting state.
#[derive(Debug, Clone, Copy, PartialEq, Eq, Structural)]
pub enum GlomError {
    /// A hit arrived with a time before the open event's start time; the
    /// input stream violated its time ordering.
    NonMonotonicTime,
    /// A frame record without a readable body header cannot be timestamped.
    MissingBodyHeader,
    /// A frame record too short to hold its absolute frame number.
    TruncatedFrame,
    /// The record to be written would overflow the record container's
    /// 32-bit size counter.
    RecordTooLong,
}

/// The abstract state of a builder: source id, coincidence interval, the
/// open event's start time (when one is open), and the buffered entries.
pub struct GlomModel {
    pub sid: u32,
    pub dt: u64,
    pub t0: Option<u64>,
    pub hits: Seq<Entry>,
}

/// A flushed coincidence event, abstractly: the record's timestamp (the
/// first accumulated entry's time), its source id, and its entries in
/// accumulation order.
pub struct EventRec {
    pub ts: u64,
    pub sid: u32,
    pub entries: Seq<Entry>,
}

/// The 16-bit channel/edge tag word of a hit: the channel in the low bits,
/// with the top bit set for a trailing edge.
pub open spec fn chan_word(leading: bool, channel: u8) -> u16 {
    if leading {
        channel as u16
    } else {
        (channel as u16) | 0x8000
    }
}

/// What adding one hit does to a builder: opens an event when none is open,
/// joins the open event when the hit lies within the coincidence interval of
/// its start (inclusively), flushes and reopens when it lies beyond, and
/// signals an error — `None` here — when the hit's time precedes the open
/// event's start.
pub open spec fn glom_add_hit_step(
    m: GlomModel,
    leading: bool,
    channel: u8,
    time: u64,
    tot: u32,
) -> Option<(GlomModel, Option<EventRec>)> {
    let cw = chan_word(leading, channel);
    match m.t0 {
        None => Some(
            (
                GlomModel {
                    sid: m.sid,
                    dt: m.dt,
                    t0: Some(time),
                    hits: m.hits.push((cw, time, tot)),
                },
                None,
            ),
        ),
        Some(t0) => {
            if time < t0 {
                None
            } else if time - t0 <= m.dt {
                Some(
                    (
                        GlomModel {
                            sid: m.sid,
                            dt: m.dt,
                            t0: Some(t0),
                            hits: m.hits.push((cw, time, tot)),
                        },
                        None,
                    ),
                )
            } else {
                Some(
                    (
                        GlomModel {
                            sid: m.sid,
                            dt: m.dt,
                            t0: Some(time),
                            hits: seq![(cw, time, tot)],
                        },
                        Some(EventRec { ts: t0, sid: m.sid, entries: m.hits }),
                    ),
                )
            }
        },
    }
}

/// What flushing does: nothing when no event is open; otherwise it emits the
/// buffered entries as a record stamped with the event's start time and the
/// builder's source id, and empties the builder.
pub open spec fn glom_flush_step(m: GlomModel) -> (GlomModel, Option<EventRec>) {
    match m.t0 {
        None => (m, None),
        Some(t0) => (
            GlomModel { sid: m.sid, dt: m.dt, t0: None, hits: Seq::<Entry>::empty() },
            Some(EventRec { ts: t0, sid: m.sid, entries: m.hits }),
        ),
    }
}

/// What adding a frame boundary does: it appends the marker entry and leaves
/// everything else — in particular the open event's start time — unchanged.
pub open spec fn glom_boundary_step(m: GlomModel, fno: u64) -> GlomModel {
    GlomModel {
        sid: m.sid,
        dt: m.dt,
        t0: m.t0,
        hits: m.hits.push((FRAME_BOUNDARY_CHAN, fno, FRAME_BOUNDARY_TOT)),
    }
}

/// The (width, value) fields one entry contributes to a record's payload:
/// the 16-bit tag word, the 64-bit time, the 32-bit time over threshold.
pub open spec fn entry_fields(e: Entry) -> Seq<(u64, u64)> {
    seq![(2u64, e.0 as u64), (8u64, e.1), (4u64, e.2 as u64)]
}

/// The fields a whole entry sequence contributes, in accumulation order.
pub open spec fn entries_fields(es: Seq<Entry>) -> Seq<(u64, u64)>
    decreases es.len(),
{
    if es.len() == 0 {
        Seq::<(u64, u64)>::empty()
    } else {
        entries_fields(es.drop_last()) + entry_fields(es.last())
    }
}

/// What it means for a concrete record to carry a flushed event: the
/// physics-event type, a body header of the event's start time, its source
/// id and barrier zero, and the entries as the appended fields.
pub open spec fn item_matches(item: RingItem, e: EventRec) -> bool {
    &&& ring_type(item) == PHYSICS_EVENT_TYPE
    &&& ring_bodyheader(item) == Some((e.ts, e.sid, 0u32))
    &&& ring_fields(item) == entries_fields(e.entries)
}

/// Builds physics-event records from a time-ordered hit stream by grouping
/// hits whose successive gaps to the event's start stay within a configured
/// coincidence interval. Flushed records are returned to the caller, who
/// owns the transport.
pub struct Glom {
    sid: u32,
    dt: u64,
    t0: Option<u64>,
    hits: Vec<Entry>,
}

impl View for Glom {
    type V = GlomModel;

    closed spec fn view(&self) -> GlomModel {
        GlomModel { sid: self.sid, dt: self.dt, t0: self.t0, hits: self.hits@ }
    }
}

impl Glom {
    /// Creates an empty builder with the given source id and coincidence
    /// interval (in ticks).
    pub fn new(sid: u32, dt: u64) -> (r: Glom)
        ensures
            r@ == (GlomModel { sid, dt, t0: None, hits: Seq::<Entry>::empty() }),
    {
        Glom { sid, dt, t0: None, hits: Vec::new() }
    }

    /// The source id stamped on future flushed records.
    pub fn sid(&self) -> (r: u32)
        ensures
            r == self@.sid,
    {
        self.sid
    }

    /// The coincidence interval, in ticks.
    pub fn dt(&self) -> (r: u64)
        ensures
            r == self@.dt,
    {
        self.dt
    }

    /// The open event's start time, or `None` when the builder is Empty.
    pub fn t0(&self) -> (r: Option<u64>)
        ensures
            r == self@.t0,
    {
        self.t0
    }

    /// The entries buffered so far, in accumulation order.
    pub fn hits(&self) -> (r: &Vec<Entry>)
        ensures
            r@ == self@.hits,
    {
        &self.hits
    }

    /// Alters the source id stamped on future flushed records; an event
    /// already in progress gets the new id when it is eventually flushed.
    pub fn set_sid(&mut self, sid: u32)
        ensures
            final(self)@ == (GlomModel {
                sid,
                dt: old(self)@.dt,
                t0: old(self)@.t0,
                hits: old(self)@.hits,
            }),
    {
        self.sid = sid;
    }

    // Opens a new event holding the given entry as its first.
    fn new_event(&mut self, chan: u16, time: u64, tot: u32)
        ensures
            final(self)@ == (GlomModel {
                sid: old(self)@.sid,
                dt: old(self)@.dt,
                t0: Some(time),
                hits: old(self)@.hits.push((chan, time, tot)),
            }),
    {
        self.t0 = Some(time);
        self.hits.push((chan, time, tot));
    }

    /// Appends a frame-boundary marker to the buffered entries. This neither
    /// opens an event nor takes part in the window check: a boundary's time
    /// is a frame index, not a tick count.
    pub fn add_frame_boundary(&mut self, fno: u64)
        ensures
            final(self)@ == glom_boundary_step(old(self)@, fno),
    {
        self.hits.push((FRAME_BOUNDARY_CHAN, fno, FRAME_BOUNDARY_TOT));
    }

    /// Flushes the open event, if any, into a record: its start time as the
    /// record's timestamp, the builder's source id, and the buffered entries
    /// in accumulation order. A no-op on an Empty builder — entries buffered
    /// without an open event (frame boundaries alone) are discarded only at
    /// the builder's end, never emitted on their own. When the buffered
    /// entries would overflow the record container's 32-bit size counter,
    /// the builder signals the error and changes nothing.
    pub fn flush(&mut self) -> (r: Result<Option<RingItem>, GlomError>)
        ensures
            match r {
                Ok(out) => {
                    &&& final(self)@ == glom_flush_step(old(self)@).0
                    &&& (match glom_flush_step(old(self)@).1 {
                        None => out is None,
                        Some(e) => out matches Some(item) && item_matches(item, e),
                    })
                    &&& (old(self)@.t0 is Some ==> old(self)@.hits.len() <= MAX_EVENT_ENTRIES)
                },
                Err(e) => e == GlomError::RecordTooLong && final(self)@ == old(self)@ && old(
                    self,
                )@.t0 is Some && old(self)@.hits.len() > MAX_EVENT_ENTRIES,
            },
    {
        match self.t0 {
            None => Ok(None),
            Some(stamp) => {
                if self.hits.len() > MAX_EVENT_ENTRIES {
                    return Err(GlomError::RecordTooLong);
                }
                let mut item = ri_new_with_body_header(PHYSICS_EVENT_TYPE, stamp, self.sid, 0);
                let n = self.hits.len();
                let mut i: usize = 0;
                while i < n
                    invariant
                        i <= n,
                        n == self.hits@.len(),
                        n <= MAX_EVENT_ENTRIES,
                        self.hits@ == old(self)@.hits,
                        ring_type(item) == PHYSICS_EVENT_TYPE,
                        ring_bodyheader(item) == Some((stamp, old(self)@.sid, 0u32)),
                        ring_payload(item).len() == 16 + 14 * (i as int),
                        ring_fields(item) == entries_fields(self.hits@.take(i as int)),
                    decreases n - i,
                {
                    let (ch, t, tot) = self.hits[i];
                    let ghost before: Seq<(u64, u64)> = ring_fields(item);
                    ri_add_u16(&mut item, ch);
                    ri_add_u64(&mut item, t);
                    ri_add_u32(&mut item, tot);
                    proof {
                        let ii = i as int;
                        assert(self.hits@.take(ii + 1).drop_last() =~= self.hits@.take(ii));
                        assert(self.hits@.take(ii + 1).last() == self.hits@[ii]);
                        assert(before.push((2u64, ch as u64)).push((8u64, t)).push(
                            (4u64, tot as u64),
                        ) =~= before + entry_fields((ch, t, tot)));
                    }
                    i = i + 1;
                }
                proof {
                    assert(self.hits@.take(n as int) =~= self.hits@);
                }
                self.hits.clear();
                self.t0 = None;
                Ok(Some(item))
            },
        }
    }

    /// Adds one hit. Empty: opens an event at the hit's time. Open and the
    /// hit within the interval of the start (inclusively): joins the event.
    /// Open and the hit beyond it: flushes the event — the returned record —
    /// and opens a new one holding the hit. A hit whose time precedes the
    /// open event's start is the caller violating the stream's time order,
    /// and a flush whose record would overflow the container's size counter
    /// is a machine limit: either way the builder signals the error and
    /// changes nothing.
    pub fn add_hit(&mut self, leading: bool, channel: u8, time: u64, tot: u32) -> (r: Result<
        Option<RingItem>,
        GlomError,
    >)
        ensures
            match glom_add_hit_step(old(self)@, leading, channel, time, tot) {
                None => r == Err::<Option<RingItem>, GlomError>(GlomError::NonMonotonicTime)
                    && final(self)@ == old(self)@,
                Some((m2, rec)) => match rec {
                    None => r matches Ok(out) && out is None && final(self)@ == m2,
                    Some(e) => if old(self)@.hits.len() > MAX_EVENT_ENTRIES {
                        r == Err::<Option<RingItem>, GlomError>(GlomError::RecordTooLong)
                            && final(self)@ == old(self)@
                    } else {
                        r matches Ok(out) && out matches Some(item) && item_matches(item, e)
                            && final(self)@ == m2
                    },
                },
            },
    {
        let chanword: u16 = if leading {
            channel as u16
        } else {
            (channel as u16) | 0x8000
        };
        match self.t0 {
            None => {
                self.new_event(chanword, time, tot);
                Ok(None)
            },
            Some(t0) => {
                if time < t0 {
                    Err(GlomError::NonMonotonicTime)
                } else if time - t0 <= self.dt {
                    self.hits.push((chanword, time, tot));
                    Ok(None)
                } else {
                    match self.flush() {
                        Ok(flushed) => {
                            self.new_event(chanword, time, tot);
                            Ok(flushed)
                        },
                        Err(e) => Err(e),
                    }
                }
            },
        }
    }
}

/// The hit one raw word contributes to a frame, if any: an edge word yields
/// its direction, channel, time over threshold, and its frame-local time
/// globalized by wrapping addition of the frame's base time; any other word
/// yields none.
pub open spec fn hit_of_word(w: u64, base: u64) -> Option<Hit> {
    match spec_decode(w) {
        DatumView::LeadingEdge(lw) => Some(
            (
                true,
                spec_channel(lw) as u16,
                vstd::wrapping::u64_specs::wrapping_add(base, spec_time(lw) as u64),
                spec_tot(lw),
            ),
        ),
        DatumView::TrailingEdge(tw) => Some(
            (
                false,
                spec_channel(tw) as u16,
                vstd::wrapping::u64_specs::wrapping_add(base, spec_time(tw) as u64),
                spec_tot(tw),
            ),
        ),
        _ => None,
    }
}

/// The hits a frame's words contribute, in word order.
pub open spec fn frame_hits(words: Seq<u64>, base: u64) -> Seq<Hit>
    decreases words.len(),
{
    if words.len() == 0 {
        Seq::<Hit>::empty()
    } else {
        frame_hits(words.drop_last(), base) + (match hit_of_word(words.last(), base) {
            Some(h) => seq![h],
            None => Seq::<Hit>::empty(),
        })
    }
}

/// What feeding a hit sequence into a builder does: the state after the
/// feed, the records flushed along the way in order, and the error — `None`
/// when the whole sequence was accepted. A hit that violates time order, or
/// one that would flush a record too long for the container's size counter,
/// stops the feed there: the state and records are those reached before it.
pub open spec fn glom_feed(m: GlomModel, hs: Seq<Hit>) -> (
    GlomModel,
    Seq<EventRec>,
    Option<GlomError>,
)
    decreases hs.len(),
{
    if hs.len() == 0 {
        (m, Seq::<EventRec>::empty(), None::<GlomError>)
    } else {
        let (m1, recs, err) = glom_feed(m, hs.drop_last());
        if err is Some {
            (m1, recs, err)
        } else {
            let h = hs.last();
            match glom_add_hit_step(m1, h.0, h.1 as u8, h.2, h.3) {
                None => (m1, recs, Some(GlomError::NonMonotonicTime)),
                Some((m2, rec)) => match rec {
                    None => (m2, recs, None::<GlomError>),
                    Some(e) => if m1.hits.len() > MAX_EVENT_ENTRIES {
                        (m1, recs, Some(GlomError::RecordTooLong))
                    } else {
                        (m2, recs.push(e), None::<GlomError>)
                    },
                },
            }
        }
    }
}

/// Once a feed has stopped on an error, the hits after the stopping one
/// change nothing: the feed of the whole sequence equals the feed of the
/// prefix that stopped.
pub proof fn lemma_feed_stops_on_error(m: GlomModel, hs: Seq<Hit>, k: int)
    requires
        0 <= k <= hs.len(),
        glom_feed(m, hs.take(k)).2 is Some,
    ensures
        glom_feed(m, hs) == glom_feed(m, hs.take(k)),
    decreases hs.len(),
{
    if hs.len() == k {
        assert(hs.take(k) =~= hs);
    } else {
        assert(hs.drop_last().take(k) =~= hs.take(k));
        lemma_feed_stops_on_error(m, hs.drop_last(), k);
    }
}

/// The source id of an item's body header; zero when it has none.
pub open spec fn ring_source_id(item: RingItem) -> u32 {
    match ring_bodyheader(item) {
        Some(bh) => bh.1,
        None => 0,
    }
}

/// The timestamp of an item's body header; zero when it has none.
pub open spec fn ring_timestamp(item: RingItem) -> u64 {
    match ring_bodyheader(item) {
        Some(bh) => bh.0,
        None => 0,
    }
}

/// What processing one frame means: with the boundary marker appended
/// first, the frame's words yield hits, the hits are stably time-sorted and
/// fed into the builder; the new state, the emitted records and the error
/// report must all agree with that feed.
pub open spec fn frame_outcome(
    m_old: GlomModel,
    base: u64,
    fno: u64,
    words: Seq<u64>,
    m_new: GlomModel,
    out: Seq<RingItem>,
    err: Option<GlomError>,
) -> bool {
    let fr = glom_feed(glom_boundary_step(m_old, fno), sort_by_time(frame_hits(words, base)));
    &&& m_new == fr.0
    &&& out.len() == fr.1.len()
    &&& (forall|i: int| 0 <= i < fr.1.len() ==> item_matches(#[trigger] out[i], fr.1[i]))
    &&& err == fr.2
}

impl Glom {
    /// Feeds one frame into the builder: the frame-boundary marker first,
    /// then every edge hit among the words, time-ordered, each hit's
    /// frame-local time globalized by the frame's base time. Returns the
    /// records flushed along the way, and the error — with the records
    /// flushed before it — if a hit violated time order.
    pub fn process_frame(&mut self, base_time: u64, fno: u64, words: &Vec<u64>) -> (r: (
        Vec<RingItem>,
        Option<GlomError>,
    ))
        ensures
            frame_outcome(old(self)@, base_time, fno, words@, final(self)@, r.0@, r.1),
    {
        self.add_frame_boundary(fno);
        let ghost m0: GlomModel = self@;
        let mut orderer = Orderer::new();
        let n = words.len();
        let mut i: usize = 0;
        while i < n
            invariant
                i <= n,
                n == words@.len(),
                self@ == m0,
                orderer@ == frame_hits(words@.take(i as int), base_time),
            decreases n - i,
        {
            let w = words[i];
            let ghost sofar: Seq<Hit> = orderer@;
            match MikumariDatum::from_u64(w) {
                MikumariDatum::LeadingEdge(le) => {
                    let t = base_time.wrapping_add(le.Time() as u64);
                    orderer.add_hit(true, le.channel() as u16, t, le.TOT());
                    proof {
                        let h: Hit = (
                            true,
                            spec_channel(le@) as u16,
                            vstd::wrapping::u64_specs::wrapping_add(
                                base_time,
                                spec_time(le@) as u64,
                            ),
                            spec_tot(le@),
                        );
                        assert(hit_of_word(w, base_time) == Some(h));
                        assert(orderer@ == sofar.push(h));
                        assert(sofar + seq![h] =~= sofar.push(h));
                    }
                },
                MikumariDatum::TrailingEdge(te) => {
                    let t = base_time.wrapping_add(te.Time() as u64);
                    orderer.add_hit(false, te.channel() as u16, t, te.TOT());
                    proof {
                        let h: Hit = (
                            false,
                            spec_channel(te@) as u16,
                            vstd::wrapping::u64_specs::wrapping_add(
                                base_time,
                                spec_time(te@) as u64,
                            ),
                            spec_tot(te@),
                        );
                        assert(hit_of_word(w, base_time) == Some(h));
                        assert(orderer@ == sofar.push(h));
                        assert(sofar + seq![h] =~= sofar.push(h));
                    }
                },
                _ => {
                    proof {
                        assert(hit_of_word(w, base_time) is None);
                        assert(sofar + Seq::<Hit>::empty() =~= sofar);
                    }
                },
            }
            proof {
                let ii = i as int;
                assert(words@.take(ii + 1).drop_last() =~= words@.take(ii));
                assert(words@.take(ii + 1).last() == words@[ii]);
                assert(frame_hits(words@.take(ii + 1), base_time) == frame_hits(
                    words@.take(ii),
                    base_time,
                ) + (match hit_of_word(words@[ii], base_time) {
                    Some(h) => seq![h],
                    None => Seq::<Hit>::empty(),
                }));
            }
            i = i + 1;
        }
        proof {
            assert(words@.take(n as int) =~= words@);
        }
        let merged = orderer.order();
        let ghost hs: Seq<Hit> = merged@;
        let mut out: Vec<RingItem> = Vec::new();
        let mut err: Option<GlomError> = None;
        let m = merged.len();
        let mut k: usize = 0;
        proof {
            assert(hs.take(0) =~= Seq::<Hit>::empty());
        }
        while k < m && err.is_none()
            invariant
                k <= m,
                m == hs.len(),
                merged@ == hs,
                self@ == glom_feed(m0, hs.take(k as int)).0,
                out@.len() == glom_feed(m0, hs.take(k as int)).1.len(),
                forall|j: int|
                    0 <= j < out@.len() ==> item_matches(
                        #[trigger] out@[j],
                        glom_feed(m0, hs.take(k as int)).1[j],
                    ),
                err == glom_feed(m0, hs.take(k as int)).2,
            decreases m - k,
        {
            let (rising, chan, time, tot) = merged[k];
            proof {
                let kk = k as int;
                assert(hs.take(kk + 1).drop_last() =~= hs.take(kk));
                assert(hs.take(kk + 1).last() == hs[kk]);
            }
            let chan8: u8 = #[verifier::truncate] (chan as u8);
            match self.add_hit(rising, chan8, time, tot) {
                Ok(Some(flushed)) => {
                    out.push(flushed);
                },
                Ok(None) => {},
                Err(e) => {
                    err = Some(e);
                },
            }
            k = k + 1;
        }
        proof {
            if err is Some {
                lemma_feed_stops_on_error(m0, hs, k as int);
            } else {
                assert(hs.take(m as int) =~= hs);
            }
        }
        (out, err)
    }
}

/// Routes one incoming record. A run-start record sets the builder's source
/// id from its body header; a run-end record flushes the open event; every
/// record that is not a frame is then forwarded unchanged. A frame record is
/// not forwarded: its absolute frame number joins the buffered entries as a
/// boundary marker and its words are unpacked, time-ordered and fed into the
/// builder, yielding the records flushed along the way.
pub fn convert_item(item: &RingItem, glom: &mut Glom) -> (r: (Vec<RingItem>, bool, Option<
    GlomError,
>))
    ensures
        ring_type(*item) != MIKUMARI_FRAME_ITEM_TYPE ==> r.1 == true,
        (ring_type(*item) != MIKUMARI_FRAME_ITEM_TYPE && ring_type(*item) != END_RUN_TYPE)
            ==> r.2 is None,
        (ring_type(*item) != MIKUMARI_FRAME_ITEM_TYPE && ring_type(*item) != BEGIN_RUN_TYPE
            && ring_type(*item) != END_RUN_TYPE) ==> final(glom)@ == old(glom)@ && r.0@.len()
            == 0,
        ring_type(*item) == BEGIN_RUN_TYPE ==> r.0@.len() == 0 && (
        if ring_payload(*item).len() >= 16 && ring_bodyheader(*item) is Some {
            final(glom)@ == (GlomModel {
                sid: ring_source_id(*item),
                dt: old(glom)@.dt,
                t0: old(glom)@.t0,
                hits: old(glom)@.hits,
            })
        } else {
            final(glom)@ == old(glom)@
        }),
        ring_type(*item) == END_RUN_TYPE ==> (
        if old(glom)@.t0 is Some && old(glom)@.hits.len() > MAX_EVENT_ENTRIES {
            final(glom)@ == old(glom)@ && r.0@.len() == 0 && r.2 == Some(
                GlomError::RecordTooLong,
            )
        } else {
            final(glom)@ == glom_flush_step(old(glom)@).0 && r.2 is None && (
            match glom_flush_step(old(glom)@).1 {
                None => r.0@.len() == 0,
                Some(e) => r.0@.len() == 1 && item_matches(r.0@[0], e),
            })
        }),
        ring_type(*item) == MIKUMARI_FRAME_ITEM_TYPE ==> r.1 == false,
        (ring_type(*item) == MIKUMARI_FRAME_ITEM_TYPE && (ring_payload(*item).len() < 16
            || ring_bodyheader(*item) is None)) ==> final(glom)@ == old(glom)@ && r.0@.len() == 0
            && r.2 == Some(GlomError::MissingBodyHeader),
        (ring_type(*item) == MIKUMARI_FRAME_ITEM_TYPE && ring_payload(*item).len() >= 16
            && ring_bodyheader(*item) is Some && ring_payload(*item).len() < 24) ==> final(glom)@
            == old(glom)@ && r.0@.len() == 0 && r.2 == Some(GlomError::TruncatedFrame),
        (ring_type(*item) == MIKUMARI_FRAME_ITEM_TYPE && ring_bodyheader(*item) is Some
            && ring_payload(*item).len() >= 24) ==> exists|fno: u64, words: Seq<u64>|
            {
                &&& words.len() == (ring_payload(*item).len() - 24) / 8
                &&& is_ne_reading(fno, ring_payload(*item).subrange(16, 24))
                &&& words_match_payload(words, ring_payload(*item), 24)
                &&& #[trigger] frame_outcome(
                    old(glom)@,
                    ring_timestamp(*item),
                    fno,
                    words,
                    final(glom)@,
                    r.0@,
                    r.2,
                )
            },
{
    let item_type = ri_type_id(item);
    if item_type != MIKUMARI_FRAME_ITEM_TYPE {
        let mut out: Vec<RingItem> = Vec::new();
        if item_type == BEGIN_RUN_TYPE {
            let p = ri_payload(item);
            if p.len() >= 16 {
                if let Some((_stamp, sid, _barrier)) = ri_get_bodyheader(item) {
                    glom.set_sid(sid);
                }
            }
        } else if item_type == END_RUN_TYPE {
            match glom.flush() {
                Ok(Some(flushed)) => {
                    out.push(flushed);
                },
                Ok(None) => {},
                Err(e) => {
                    return (out, true, Some(e));
                },
            }
        }
        (out, true, None)
    } else {
        let p = ri_payload(item);
        let total = p.len();
        if total < 16 {
            return (Vec::new(), false, Some(GlomError::MissingBodyHeader));
        }
        match ri_get_bodyheader(item) {
            None => (Vec::new(), false, Some(GlomError::MissingBodyHeader)),
            Some((base_time, _sid, _barrier)) => {
                if total < 24 {
                    return (Vec::new(), false, Some(GlomError::TruncatedFrame));
                }
                let fno = word_at(p, 16);
                let nw = (total - 24) / 8;
                proof {
                    assert(8 * ((total - 24) as int / 8) <= total - 24) by (nonlinear_arith)
                        requires
                            total >= 24,
                    ;
                }
                let mut words: Vec<u64> = Vec::new();
                let mut k: usize = 0;
                while k < nw
                    invariant
                        k <= nw,
                        nw == ((total - 24) as int) / 8,
                        total == p@.len(),
                        p@ == ring_payload(*item),
                        total >= 24,
                        8 * (nw as int) <= total - 24,
                        words@.len() == k,
                        words_match_payload(words@, p@, 24),
                    decreases nw - k,
                {
                    proof {
                        assert(8 * (k as int) + 8 <= 8 * (nw as int)) by (nonlinear_arith)
                            requires
                                (k as int) < (nw as int),
                        ;
                    }
                    let ghost sofar: Seq<u64> = words@;
                    let w = word_at(p, 24 + 8 * k);
                    words.push(w);
                    proof {
                        assert(words@ == sofar.push(w));
                        assert forall|j: int| 0 <= j < words@.len() implies is_ne_reading(
                            #[trigger] words@[j],
                            p@.subrange(24 + 8 * j, 24 + 8 * j + 8),
                        ) by {
                            if j < sofar.len() {
                                assert(words@[j] == sofar[j]);
                            } else {
                                assert(words@[j] == w);
                            }
                        }
                    }
                    k = k + 1;
                }
                let pf = glom.process_frame(base_time, fno, &words);
                let result = (pf.0, false, pf.1);
                proof {
                    assert(words@.len() == ((ring_payload(*item).len() - 24) as int) / 8);
                    assert(ring_timestamp(*item) == base_time);
                    assert(is_ne_reading(fno, ring_payload(*item).subrange(16, 24)));
                    assert(words_match_payload(words@, ring_payload(*item), 24));
                    assert(frame_outcome(
                        old(glom)@,
                        ring_timestamp(*item),
                        fno,
                        words@,
                        glom@,
                        result.0@,
                        result.2,
                    ));
                    assert(exists|f: u64, ws: Seq<u64>|
                        {
                            &&& ws.len() == (ring_payload(*item).len() - 24) / 8
                            &&& is_ne_reading(f, ring_payload(*item).subrange(16, 24))
                            &&& words_match_payload(ws, ring_payload(*item), 24)
                            &&& #[trigger] frame_outcome(
                                old(glom)@,
                                ring_timestamp(*item),
                                f,
                                ws,
                                glom@,
                                result.0@,
                                result.2,
                            )
                        });
                }
                result
            },
        }
    }
}

/// What a sequence of frame boundaries alone does to a builder.
pub open spec fn glom_boundary_feed(m: GlomModel, fnos: Seq<u64>) -> GlomModel
    decreases fnos.len(),
{
    if fnos.len() == 0 {
        m
    } else {
        glom_boundary_step(glom_boundary_feed(m, fnos.drop_last()), fnos.last())
    }
}

/// Window inclusivity: with an event open at `t0`, a hit at `t0 + dt` still
/// joins it, while a hit at `t0 + dt + 1` flushes the event — stamped `t0`,
/// carrying exactly the buffered entries — and opens a new event holding
/// only the new hit.
pub proof fn lemma_window_inclusive(m: GlomModel, t0: u64, leading: bool, channel: u8, tot: u32)
    requires
        m.t0 == Some(t0),
        t0 + m.dt + 1 <= u64::MAX,
    ensures
        glom_add_hit_step(m, leading, channel, (t0 + m.dt) as u64, tot) matches Some((m2, rec))
            && rec is None && m2.t0 == Some(t0) && m2.hits == m.hits.push(
            (chan_word(leading, channel), (t0 + m.dt) as u64, tot),
        ),
        glom_add_hit_step(m, leading, channel, (t0 + m.dt + 1) as u64, tot) matches Some(
            (m2, rec),
        ) && rec == Some(EventRec { ts: t0, sid: m.sid, entries: m.hits }) && m2.t0 == Some(
            (t0 + m.dt + 1) as u64,
        ) && m2.hits == seq![(chan_word(leading, channel), (t0 + m.dt + 1) as u64, tot)],
{
}

/// Frame-boundary non-triggering: boundaries added to an Empty builder open
/// no event, so a following flush emits no record — the markers are
/// discarded, by design.
pub proof fn lemma_boundary_does_not_trigger(m: GlomModel, fnos: Seq<u64>)
    requires
        m.t0 is None,
    ensures
        glom_boundary_feed(m, fnos).t0 is None,
        glom_flush_step(glom_boundary_feed(m, fnos)).1 is None,
    decreases fnos.len(),
{
    if fnos.len() > 0 {
        lemma_boundary_does_not_trigger(m, fnos.drop_last());
    }
}

} // verus!
