//! Decoding and event assembly for bit-packed time-to-digital-converter data.
//!
//! The core is a codec for tagged 64-bit data words (`mikumari_format`), a
//! stable time-ordering merger for per-frame hit soups (`orderer`), and a
//! coincidence-window event builder that groups time-ordered hits into
//! records (`glom`). Around it stand the assembly of raw words into
//! per-frame records on the producer side (`frame_assembly`) and the trusted
//! view of the outside record container (`ring_record`).

pub mod frame_assembly;
pub mod glom;
pub mod mikumari_format;
pub mod orderer;
pub mod ring_record;
