use mikumarimaker::frame_assembly::FrameAssembler;
use mikumarimaker::glom::{convert_item, Glom, GlomError};
use mikumarimaker::mikumari_format::{
    Delimeter1, HRTDCLeading, HRTDCTrailing, MIKUMARI_FRAME_ITEM_TYPE,
};
use rust_ringitem_format::{RingItem, BEGIN_RUN, END_RUN, PHYSICS_EVENT};

#[test]
fn convert_forwards_unknown_records() {
    let item = RingItem::new_with_body_header(PHYSICS_EVENT, 5, 2, 0);
    let mut glom = Glom::new(1, 100);
    let (out, forward, err) = convert_item(&item, &mut glom);
    assert!(out.is_empty());
    assert!(forward);
    assert!(err.is_none());
    assert!(glom.hits().is_empty());
}

#[test]
fn convert_begin_run_adopts_source_id() {
    let item = RingItem::new_with_body_header(BEGIN_RUN, 0, 9, 1);
    let mut glom = Glom::new(1, 100);
    let (out, forward, err) = convert_item(&item, &mut glom);
    assert!(out.is_empty());
    assert!(forward);
    assert!(err.is_none());
    assert_eq!(glom.sid(), 9);
}

#[test]
fn convert_end_run_flushes() {
    let item = RingItem::new_with_body_header(END_RUN, 0, 1, 2);
    let mut glom = Glom::new(1, 100);
    let _ = glom.add_hit(true, 3, 400, 6).unwrap();
    let (out, forward, err) = convert_item(&item, &mut glom);
    assert!(forward);
    assert!(err.is_none());
    assert_eq!(out.len(), 1);
    let bh = out[0].get_bodyheader().unwrap();
    assert_eq!(bh.timestamp, 400);
    assert!(glom.t0().is_none());
    assert!(glom.hits().is_empty());
}

#[test]
fn convert_frame_without_body_header_is_an_error() {
    let item = RingItem::new(MIKUMARI_FRAME_ITEM_TYPE);
    let mut glom = Glom::new(1, 100);
    let (out, forward, err) = convert_item(&item, &mut glom);
    assert!(out.is_empty());
    assert!(!forward);
    assert!(matches!(err, Some(GlomError::MissingBodyHeader)));
    assert!(glom.hits().is_empty());
}

#[test]
fn convert_truncated_frame_is_an_error() {
    // a frame item whose payload ends before the absolute frame number
    let item = RingItem::new_with_body_header(MIKUMARI_FRAME_ITEM_TYPE, 0, 0, 0);
    let mut glom = Glom::new(1, 100);
    let (out, forward, err) = convert_item(&item, &mut glom);
    assert!(out.is_empty());
    assert!(!forward);
    assert!(matches!(err, Some(GlomError::TruncatedFrame)));
    assert!(glom.hits().is_empty());
}

#[test]
fn convert_frame_orders_and_globalizes_hits() {
    // base time 1000; hits arrive out of time order within the frame
    let mut item = RingItem::new_with_body_header(MIKUMARI_FRAME_ITEM_TYPE, 1000, 0, 0);
    item.add(7u64); // absolute frame number
    item.add(HRTDCLeading::new(1, 666, 50).get());
    item.add(HRTDCTrailing::new(0, 666, 30).get());
    let mut glom = Glom::new(1, 100);
    let (out, forward, err) = convert_item(&item, &mut glom);
    assert!(err.is_none());
    assert!(!forward);
    assert!(out.is_empty()); // both hits fall in one still-open event

    // boundary marker first, then the hits in global time order
    assert_eq!(glom.hits().len(), 3);
    assert_eq!(glom.hits()[0], (0xffffu16, 7u64, 0xffffffffu32));
    assert_eq!(glom.hits()[1], (0x8000u16, 1030u64, 666u32)); // trailing, chan 0
    assert_eq!(glom.hits()[2], (1u16, 1050u64, 666u32)); // leading, chan 1
    assert_eq!(glom.t0(), Some(1030));
}

#[test]
fn convert_frame_flushes_between_events() {
    // two hits further apart than dt: the first flushes when the second
    // arrives, and the flushed record carries the boundary marker with it
    let mut item = RingItem::new_with_body_header(MIKUMARI_FRAME_ITEM_TYPE, 0, 0, 0);
    item.add(3u64);
    item.add(HRTDCLeading::new(1, 5, 100).get());
    item.add(HRTDCLeading::new(2, 5, 300).get());
    let mut glom = Glom::new(4, 50);
    let (out, forward, err) = convert_item(&item, &mut glom);
    assert!(err.is_none());
    assert!(!forward);
    assert_eq!(out.len(), 1);
    let bh = out[0].get_bodyheader().unwrap();
    assert_eq!(bh.timestamp, 100);
    assert_eq!(bh.source_id, 4);
    // flushed payload: the boundary marker entry, then the first hit
    let payload = &out[0].payload()[16..];
    assert_eq!(payload.len(), 2 * (2 + 8 + 4));
    assert_eq!(u16::from_le_bytes(payload[0..2].try_into().unwrap()), 0xffff);
    assert_eq!(u64::from_le_bytes(payload[2..10].try_into().unwrap()), 3);
    assert_eq!(u16::from_le_bytes(payload[14..16].try_into().unwrap()), 1);
    assert_eq!(u64::from_le_bytes(payload[16..24].try_into().unwrap()), 100);
    // the second hit is the sole entry of the new open event
    assert_eq!(glom.hits().len(), 1);
    assert_eq!(glom.hits()[0], (2u16, 300u64, 5u32));
}

#[test]
fn assembler_rolls_frames_at_heartbeats() {
    let mut fa = FrameAssembler::new(500, 5);
    assert_eq!(fa.frame(), 5);

    let w = HRTDCLeading::new(2, 7, 9).get();
    assert!(fa.process(w, 999).unwrap().is_none());

    let hb = Delimeter1::new(0, 6).get();
    let done = fa.process(hb, 1000).unwrap().unwrap();
    assert_eq!(done.type_id(), MIKUMARI_FRAME_ITEM_TYPE);
    let bh = done.get_bodyheader().unwrap();
    assert_eq!(bh.timestamp, 500);
    assert_eq!(bh.source_id, 0);
    let p = done.payload();
    assert_eq!(p.len(), 16 + 8 + 8);
    assert_eq!(u64::from_le_bytes(p[16..24].try_into().unwrap()), 5);
    assert_eq!(u64::from_le_bytes(p[24..32].try_into().unwrap()), w);

    assert_eq!(fa.frame(), 6);
    let last = fa.finish();
    assert_eq!(last.get_bodyheader().unwrap().timestamp, 1000);
    assert_eq!(
        u64::from_le_bytes(last.payload()[16..24].try_into().unwrap()),
        6
    );
}

#[test]
fn assembler_ignores_other_words() {
    let mut fa = FrameAssembler::new(0, 0);
    assert!(fa.process(0, 0).unwrap().is_none()); // tag 0 is no known type
    let last = fa.finish();
    assert_eq!(last.payload().len(), 16 + 8); // only the frame number joined
}
