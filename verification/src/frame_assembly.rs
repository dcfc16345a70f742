//! Assembly of raw words into per-frame records, on the producer side.
//!
//! Raw edge words stream in between heartbeat delimiters. The assembler
//! keeps one record open for the current frame — its body-header timestamp
//! supplied by the caller, its first field the absolute frame number — and
//! appends every edge word to it. A first-delimiter heartbeat closes the
//! frame: the finished record is handed back and a record for the next
//! frame, one absolute frame further, is opened in its place.

use vstd::prelude::*;

use rust_ringitem_format::RingItem;

use crate::glom::GlomError;
use crate::mikumari_format::{DatumView, MikumariDatum, MIKUMARI_FRAME_ITEM_TYPE, spec_decode};
use crate::ring_record::{
    ring_type,
    ring_bodyheader,
    ring_fields,
    ring_payload,
    ri_new_with_body_header,
    ri_add_u64,
    ri_payload,
};

verus! {

/// Accumulates one frame's worth of raw words into a record and rolls over
/// to a fresh record at each heartbeat.
pub struct FrameAssembler {
    item: RingItem,
    absolute_frame: u64,
}

impl FrameAssembler {
    /// The record being assembled for the current frame.
    pub closed spec fn spec_item(&self) -> RingItem {
        self.item
    }

    /// The absolute number of the current frame.
    pub closed spec fn spec_frame(&self) -> u64 {
        self.absolute_frame
    }

    /// Well-formedness: the record under assembly always holds at least its
    /// sixteen body-header payload bytes. Established by the constructor and
    /// preserved by every method.
    pub closed spec fn wf(&self) -> bool {
        ring_payload(self.item).len() >= 16
    }

    /// Opens the record of the first frame: a frame-typed record stamped
    /// with the given timestamp, carrying the absolute frame number as its
    /// first field.
    pub fn new(first_ts: u64, absolute_frame: u64) -> (r: FrameAssembler)
        ensures
            r.wf(),
            r.spec_frame() == absolute_frame,
            ring_type(r.spec_item()) == MIKUMARI_FRAME_ITEM_TYPE,
            ring_bodyheader(r.spec_item()) == Some((first_ts, 0u32, 0u32)),
            ring_fields(r.spec_item()) == seq![(8u64, absolute_frame)],
    {
        let mut item = ri_new_with_body_header(MIKUMARI_FRAME_ITEM_TYPE, first_ts, 0, 0);
        ri_add_u64(&mut item, absolute_frame);
        proof {
            assert(Seq::<(u64, u64)>::empty().push((8u64, absolute_frame)) =~= seq![
                (8u64, absolute_frame),
            ]);
        }
        FrameAssembler { item, absolute_frame }
    }

    /// The absolute number of the current frame.
    pub fn frame(&self) -> (r: u64)
        ensures
            r == self.spec_frame(),
    {
        self.absolute_frame
    }

    /// Takes one raw word. An edge word joins the current frame's record as
    /// a field, unless the record's payload has reached the container's
    /// 32-bit size counter: then the assembler signals the error and changes
    /// nothing. A first-delimiter heartbeat closes the frame: the finished
    /// record is returned, and a record for the next frame — stamped with
    /// the caller-supplied timestamp of that frame — is opened. Any other
    /// word is ignored.
    pub fn process(&mut self, word: u64, next_ts: u64) -> (r: Result<Option<RingItem>, GlomError>)
        requires
            old(self).wf(),
        ensures
            final(self).wf(),
            match spec_decode(word) {
                DatumView::LeadingEdge(_) | DatumView::TrailingEdge(_) => {
                    if ring_payload(old(self).spec_item()).len() + 8 + 12 <= u32::MAX {
                        &&& r == Ok::<Option<RingItem>, GlomError>(None)
                        &&& final(self).spec_frame() == old(self).spec_frame()
                        &&& ring_type(final(self).spec_item()) == ring_type(
                            old(self).spec_item(),
                        )
                        &&& ring_bodyheader(final(self).spec_item()) == ring_bodyheader(
                            old(self).spec_item(),
                        )
                        &&& ring_fields(final(self).spec_item()) == ring_fields(
                            old(self).spec_item(),
                        ).push((8u64, word))
                    } else {
                        r == Err::<Option<RingItem>, GlomError>(GlomError::RecordTooLong)
                            && *final(self) == *old(self)
                    }
                },
                DatumView::Heartbeat0(_) => {
                    &&& r matches Ok(out) && out matches Some(done) && done == old(
                        self,
                    ).spec_item()
                    &&& final(self).spec_frame() == vstd::wrapping::u64_specs::wrapping_add(
                        old(self).spec_frame(),
                        1,
                    )
                    &&& ring_type(final(self).spec_item()) == MIKUMARI_FRAME_ITEM_TYPE
                    &&& ring_bodyheader(final(self).spec_item()) == Some((next_ts, 0u32, 0u32))
                    &&& ring_fields(final(self).spec_item()) == seq![
                        (8u64, final(self).spec_frame()),
                    ]
                },
                _ => r == Ok::<Option<RingItem>, GlomError>(None) && *final(self) == *old(self),
            },
    {
        match MikumariDatum::from_u64(word) {
            MikumariDatum::LeadingEdge(le) => {
                if ri_payload(&self.item).len() <= (u32::MAX - 20) as usize {
                    ri_add_u64(&mut self.item, le.get());
                    Ok(None)
                } else {
                    Err(GlomError::RecordTooLong)
                }
            },
            MikumariDatum::TrailingEdge(te) => {
                if ri_payload(&self.item).len() <= (u32::MAX - 20) as usize {
                    ri_add_u64(&mut self.item, te.get());
                    Ok(None)
                } else {
                    Err(GlomError::RecordTooLong)
                }
            },
            MikumariDatum::Heartbeat0(_d) => {
                self.absolute_frame = self.absolute_frame.wrapping_add(1);
                let mut done = ri_new_with_body_header(
                    MIKUMARI_FRAME_ITEM_TYPE,
                    next_ts,
                    0,
                    0,
                );
                ri_add_u64(&mut done, self.absolute_frame);
                core::mem::swap(&mut self.item, &mut done);
                proof {
                    assert(Seq::<(u64, u64)>::empty().push((8u64, self.absolute_frame)) =~= seq![
                        (8u64, self.absolute_frame),
                    ]);
                }
                Ok(Some(done))
            },
            _ => Ok(None),
        }
    }

    /// Closes the assembler: the last, still-open frame record.
    pub fn finish(self) -> (r: RingItem)
        ensures
            r == self.spec_item(),
    {
        self.item
    }
}

} // verus!
