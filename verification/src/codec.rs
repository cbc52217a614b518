//! Fixed framing rules of the wire protocol.
//!
//! Every packet begins with a 32-byte base unit.  The first byte is the type
//! discriminator; only its low seven bits matter for framing (the high bit
//! marks server-generated packets and is ignored here).  Bytes 2..4 hold the
//! 16-bit wire sequence number and, for replies only, bytes 4..8 hold a
//! 32-bit count of additional four-byte units that follow the base unit.
//! Header fields are decoded in the byte order the connection negotiated.

use vstd::prelude::*;

verus! {

/// Discriminator value of an error packet.
pub const TYPE_ERROR: u8 = 0;

/// Discriminator value of a reply packet.
pub const TYPE_REPLY: u8 = 1;

/// Mask selecting the discriminator bits of a packet's first byte.
pub const TYPE_MASK: u8 = 0x7f;

/// Byte order negotiated at connection setup; all multi-byte header fields
/// are decoded with it.
#[derive(Clone, Copy, PartialEq, Eq, Structural, Debug)]
pub enum ByteOrder {
    Little,
    Big,
}

/// The discriminator of a packet: the low seven bits of its first byte.
pub open spec fn spec_discriminator(bytes: Seq<u8>) -> u8
    recommends
        bytes.len() >= 1,
{
    bytes[0] & TYPE_MASK
}

/// The 16-bit value stored in two header bytes under `order`.
pub open spec fn spec_u16(b0: u8, b1: u8, order: ByteOrder) -> u16 {
    match order {
        ByteOrder::Little => (b0 + b1 * 256) as u16,
        ByteOrder::Big => (b0 * 256 + b1) as u16,
    }
}

/// The 32-bit value stored in four header bytes under `order`.
pub open spec fn spec_u32(b0: u8, b1: u8, b2: u8, b3: u8, order: ByteOrder) -> u32 {
    match order {
        ByteOrder::Little => (b0 + b1 * 256 + b2 * 65536 + b3 * 16777216) as u32,
        ByteOrder::Big => (b3 + b2 * 256 + b1 * 65536 + b0 * 16777216) as u32,
    }
}

/// Decode a 16-bit header field from its two bytes.
pub fn decode_u16(b0: u8, b1: u8, order: ByteOrder) -> (r: u16)
    ensures
        r == spec_u16(b0, b1, order),
{
    match order {
        ByteOrder::Little => (b0 as u16) + (b1 as u16) * 256,
        ByteOrder::Big => (b0 as u16) * 256 + (b1 as u16),
    }
}

/// Decode a 32-bit header field from its four bytes.
pub fn decode_u32(b0: u8, b1: u8, b2: u8, b3: u8, order: ByteOrder) -> (r: u32)
    ensures
        r == spec_u32(b0, b1, b2, b3, order),
{
    match order {
        ByteOrder::Little => (b0 as u32) + (b1 as u32) * 256 + (b2 as u32) * 65536 + (b3
            as u32) * 16777216,
        ByteOrder::Big => (b3 as u32) + (b2 as u32) * 256 + (b1 as u32) * 65536 + (b0 as u32)
            * 16777216,
    }
}

/// The count of additional four-byte units a packet carries past its 32-byte
/// base unit, decided from the first eight header bytes: replies carry the
/// count in bytes 4..8, every other packet type is fixed at 32 bytes.
pub open spec fn spec_additional_words(header: Seq<u8>, order: ByteOrder) -> Option<u32>
    recommends
        header.len() >= 8,
{
    if spec_discriminator(header) == TYPE_REPLY {
        Some(spec_u32(header[4], header[5], header[6], header[7], order))
    } else {
        None
    }
}

/// The total length in bytes of the packet whose first eight bytes are
/// `header`: `32 + 4 * count` for a reply, exactly 32 for anything else.
pub open spec fn spec_packet_len(header: Seq<u8>, order: ByteOrder) -> int
    recommends
        header.len() >= 8,
{
    match spec_additional_words(header, order) {
        Some(w) => 32 + 4 * (w as int),
        None => 32,
    }
}

/// Framing decision: given the first eight bytes of a packet, report how many
/// additional four-byte units must still be read before the packet is
/// complete, or `None` when the packet is fixed at its 32-byte base unit.
pub fn additional_bytes(bytes: &[u8], order: ByteOrder) -> (r: Option<usize>)
    requires
        bytes@.len() >= 8,
    ensures
        match r {
            Some(n) => spec_additional_words(bytes@, order) == Some(n as u32) && n <= u32::MAX,
            None => spec_additional_words(bytes@, order) is None,
        },
{
    let b0 = bytes[0];
    if b0 & TYPE_MASK == TYPE_REPLY {
        let w = decode_u32(bytes[4], bytes[5], bytes[6], bytes[7], order);
        Some(w as usize)
    } else {
        None
    }
}

/// Exactly `32 + 4 * L` bytes make up a reply packet whose additional-length
/// field holds `L`; classification reads no more.
pub proof fn lemma_reply_packet_len(header: Seq<u8>, order: ByteOrder)
    requires
        header.len() >= 8,
        spec_discriminator(header) == TYPE_REPLY,
    ensures
        spec_packet_len(header, order) == 32 + 4 * (spec_u32(
            header[4],
            header[5],
            header[6],
            header[7],
            order,
        ) as int),
{
}

/// A packet whose discriminator is not the reply discriminator is exactly its
/// 32-byte base unit: no further bytes are read before classification.
pub proof fn lemma_fixed_packet_len(header: Seq<u8>, order: ByteOrder)
    requires
        header.len() >= 8,
        spec_discriminator(header) != TYPE_REPLY,
    ensures
        spec_packet_len(header, order) == 32,
{
}

} // verus!
