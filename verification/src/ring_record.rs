//! Trusted view of the outside record container.
//!
//! Records leave the library as `RingItem` values of the ring-item format
//! crate. A `RingItem` is opaque to the verifier, so this module gives a
//! name to each aspect of one that the contracts speak of — its type tag,
//! its parsed body header, its raw payload bytes, and the fixed-width
//! unsigned fields appended after the body header — and wraps each call the
//! library makes into the crate behind a contract over those names.
//!
//! One of the names, `ring_fields`, abstracts the history of typed appends
//! made to an item, not something recoverable from the item's bytes: two
//! byte-identical payloads could have been built by different append
//! sequences. The contracts only ever extend it alongside the appends that
//! build a record, so every byte-level consequence the library draws from it
//! is sound; it is not a parse of arbitrary items.

use vstd::prelude::*;

use rust_ringitem_format::RingItem;

verus! {

#[verifier::external_type_specification]
#[verifier::external_body]
pub struct ExRingItem(RingItem);

/// The ring-item type tag of an item, as `RingItem::type_id` returns it.
pub uninterp spec fn ring_type(item: RingItem) -> u32;

/// The body header of an item — timestamp, source id, barrier type — as
/// `RingItem::get_bodyheader` parses it, if the item carries one.
pub uninterp spec fn ring_bodyheader(item: RingItem) -> Option<(u64, u32, u32)>;

/// The raw payload bytes of an item, as `RingItem::payload` returns them.
/// When the item carries a body header, its sixteen bytes come first.
pub uninterp spec fn ring_payload(item: RingItem) -> Seq<u8>;

/// The fixed-width unsigned fields appended to an item after its body
/// header, each abstracted as a pair of its byte width and its value.
pub uninterp spec fn ring_fields(item: RingItem) -> Seq<(u64, u64)>;

/// Relies on RingItem::new_with_body_header: a fresh item of the given type
/// whose payload is exactly the sixteen body-header bytes built from the
/// given timestamp, source id and barrier type, with no fields appended yet.
#[verifier::external_body]
pub(crate) fn ri_new_with_body_header(t: u32, stamp: u64, source: u32, barrier: u32) -> (r:
    RingItem)
    ensures
        ring_type(r) == t,
        ring_bodyheader(r) == Some((stamp, source, barrier)),
        ring_payload(r).len() == 16,
        ring_fields(r) == Seq::<(u64, u64)>::empty(),
{
    RingItem::new_with_body_header(t, stamp, source, barrier)
}

/// Relies on RingItem::add at u16: appends the value's two bytes to the
/// payload, leaving the type, the earlier fields, and — in an item whose
/// payload already holds its sixteen body-header bytes — the body header as
/// they were. The call also advances the item's 32-bit size counter, which
/// stands at twelve header bytes plus the payload length: the bound below
/// keeps that increment from overflowing.
#[verifier::external_body]
pub(crate) fn ri_add_u16(item: &mut RingItem, v: u16)
    requires
        ring_payload(*old(item)).len() + 2 + 12 <= u32::MAX,
    ensures
        ring_type(*final(item)) == ring_type(*old(item)),
        ring_payload(*old(item)).len() >= 16 ==> ring_bodyheader(*final(item))
            == ring_bodyheader(*old(item)),
        ring_payload(*final(item)).len() == ring_payload(*old(item)).len() + 2,
        ring_fields(*final(item)) == ring_fields(*old(item)).push((2u64, v as u64)),
{
    item.add(v);
}

/// Relies on RingItem::add at u32: appends the value's four bytes to the
/// payload, leaving the type, the earlier fields, and — in an item whose
/// payload already holds its sixteen body-header bytes — the body header as
/// they were. The call also advances the item's 32-bit size counter, which
/// stands at twelve header bytes plus the payload length: the bound below
/// keeps that increment from overflowing.
#[verifier::external_body]
pub(crate) fn ri_add_u32(item: &mut RingItem, v: u32)
    requires
        ring_payload(*old(item)).len() + 4 + 12 <= u32::MAX,
    ensures
        ring_type(*final(item)) == ring_type(*old(item)),
        ring_payload(*old(item)).len() >= 16 ==> ring_bodyheader(*final(item))
            == ring_bodyheader(*old(item)),
        ring_payload(*final(item)).len() == ring_payload(*old(item)).len() + 4,
        ring_fields(*final(item)) == ring_fields(*old(item)).push((4u64, v as u64)),
{
    item.add(v);
}

/// Relies on RingItem::add at u64: appends the value's eight bytes to the
/// payload, leaving the type, the earlier fields, and — in an item whose
/// payload already holds its sixteen body-header bytes — the body header as
/// they were. The call also advances the item's 32-bit size counter, which
/// stands at twelve header bytes plus the payload length: the bound below
/// keeps that increment from overflowing.
#[verifier::external_body]
pub(crate) fn ri_add_u64(item: &mut RingItem, v: u64)
    requires
        ring_payload(*old(item)).len() + 8 + 12 <= u32::MAX,
    ensures
        ring_type(*final(item)) == ring_type(*old(item)),
        ring_payload(*old(item)).len() >= 16 ==> ring_bodyheader(*final(item))
            == ring_bodyheader(*old(item)),
        ring_payload(*final(item)).len() == ring_payload(*old(item)).len() + 8,
        ring_fields(*final(item)) == ring_fields(*old(item)).push((8u64, v)),
{
    item.add(v);
}

/// Relies on RingItem::type_id: returns the item's type tag.
#[verifier::external_body]
pub(crate) fn ri_type_id(item: &RingItem) -> (r: u32)
    ensures
        r == ring_type(*item),
{
    item.type_id()
}

/// Relies on RingItem::get_bodyheader: returns the parsed body header, if
/// the item carries one. The parse reads the first sixteen payload bytes,
/// so an item that claims a body header must have them.
#[verifier::external_body]
pub(crate) fn ri_get_bodyheader(item: &RingItem) -> (r: Option<(u64, u32, u32)>)
    requires
        ring_bodyheader(*item) is Some ==> ring_payload(*item).len() >= 16,
    ensures
        r == ring_bodyheader(*item),
{
    item.get_bodyheader().map(|bh| (bh.timestamp, bh.source_id, bh.barrier_type))
}

/// Relies on RingItem::payload: returns the item's raw payload bytes.
#[verifier::external_body]
pub(crate) fn ri_payload(item: &RingItem) -> (r: &Vec<u8>)
    ensures
        r@ == ring_payload(*item),
{
    item.payload()
}

/// The little-endian reading of eight bytes: the first byte is the least
/// significant.
pub open spec fn spec_u64_le(b: Seq<u8>) -> u64
    recommends
        b.len() == 8,
{
    (b[0] as u64) | ((b[1] as u64) << 8) | ((b[2] as u64) << 16) | ((b[3] as u64) << 24) | ((
    b[4] as u64) << 32) | ((b[5] as u64) << 40) | ((b[6] as u64) << 48) | ((b[7] as u64) << 56)
}

/// The big-endian reading of eight bytes: the first byte is the most
/// significant.
pub open spec fn spec_u64_be(b: Seq<u8>) -> u64
    recommends
        b.len() == 8,
{
    (b[7] as u64) | ((b[6] as u64) << 8) | ((b[5] as u64) << 16) | ((b[4] as u64) << 24) | ((
    b[3] as u64) << 32) | ((b[2] as u64) << 40) | ((b[1] as u64) << 48) | ((b[0] as u64) << 56)
}

/// A word is the machine-order reading of eight bytes: the little- or the
/// big-endian one, whichever the target's byte order gives.
pub open spec fn is_ne_reading(w: u64, b: Seq<u8>) -> bool {
    w == spec_u64_le(b) || w == spec_u64_be(b)
}

/// Every word of a sequence is the machine-order reading of its own eight
/// bytes of the payload, the first word's bytes starting at `start`.
pub open spec fn words_match_payload(words: Seq<u64>, payload: Seq<u8>, start: int) -> bool {
    forall|k: int|
        0 <= k < words.len() ==> is_ne_reading(
            #[trigger] words[k],
            payload.subrange(start + 8 * k, start + 8 * k + 8),
        )
}

/// Relies on u64::from_ne_bytes: reads one word from eight payload bytes in
/// the machine's own byte order. Every target orders bytes little- or
/// big-endian, so the result is one of those two readings of the bytes;
/// which of the two is not promised.
#[verifier::external_body]
pub(crate) fn word_at(bytes: &Vec<u8>, i: usize) -> (r: u64)
    requires
        i + 8 <= bytes@.len(),
    ensures
        is_ne_reading(r, bytes@.subrange(i as int, i as int + 8)),
{
    u64::from_ne_bytes(bytes[i..i + 8].try_into().unwrap())
}

} // verus!
