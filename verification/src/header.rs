//! A typed view over the fixed-size info header at the start of a DIB block.
//!
//! The view is a pure reinterpretation of the first [`HEADER_SIZE`] bytes:
//! no field is validated here. All size and consistency checks live in the
//! classifier and in the bitmap constructor.
use crate::bytes::{
    i32_at, i32_bytes, lemma_i32_round_trip, lemma_u16_round_trip, lemma_u32_round_trip,
    read_i32, read_u16, read_u32, u16_at, u16_bytes, u32_at, u32_bytes,
};
use vstd::prelude::*;

verus! {

/// Byte length of the info header (the fixed structure preceding the color
/// table and the pixel payload).
pub const HEADER_SIZE: usize = 40;

/// Compression tag: plain uncompressed raster.
pub const BI_RGB: u32 = 0;

/// Compression tag: raster whose pixels are split per declared channel masks.
pub const BI_BITFIELDS: u32 = 3;

/// Compression tag: the payload is an embedded JPEG stream.
pub const BI_JPEG: u32 = 4;

/// Compression tag: the payload is an embedded PNG stream.
pub const BI_PNG: u32 = 5;

/// The declared fields of a DIB info header, copied out of the first
/// [`HEADER_SIZE`] bytes of a block. Width and height are signed: a negative
/// height encodes top-down row order and is passed through unchanged.
#[derive(Clone, Copy, Debug, PartialEq, Eq, Structural)]
pub struct HeaderView {
    pub size: u32,
    pub width: i32,
    pub height: i32,
    pub planes: u16,
    pub bit_count: u16,
    pub compression: u32,
    pub size_image: u32,
    pub x_ppm: i32,
    pub y_ppm: i32,
    pub clr_used: u32,
    pub clr_important: u32,
}

/// The header fields declared by the first bytes of `b`.
pub open spec fn spec_header(b: Seq<u8>) -> HeaderView {
    HeaderView {
        size: u32_at(b, 0),
        width: i32_at(b, 4),
        height: i32_at(b, 8),
        planes: u16_at(b, 12),
        bit_count: u16_at(b, 14),
        compression: u32_at(b, 16),
        size_image: u32_at(b, 20),
        x_ppm: i32_at(b, 24),
        y_ppm: i32_at(b, 28),
        clr_used: u32_at(b, 32),
        clr_important: u32_at(b, 36),
    }
}

/// The serialized form of a header: exactly the [`HEADER_SIZE`] bytes it was
/// read from.
pub open spec fn header_bytes(h: HeaderView) -> Seq<u8> {
    u32_bytes(h.size) + i32_bytes(h.width) + i32_bytes(h.height) + u16_bytes(h.planes)
        + u16_bytes(h.bit_count) + u32_bytes(h.compression) + u32_bytes(h.size_image) + i32_bytes(
        h.x_ppm,
    ) + i32_bytes(h.y_ppm) + u32_bytes(h.clr_used) + u32_bytes(h.clr_important)
}

/// Re-serializing a parsed header reproduces the bytes it was read from.
pub proof fn lemma_header_round_trip(b: Seq<u8>)
    requires
        b.len() >= HEADER_SIZE,
    ensures
        header_bytes(spec_header(b)) == b.subrange(0, HEADER_SIZE as int),
{
    lemma_u32_round_trip(b[0], b[1], b[2], b[3]);
    lemma_i32_round_trip(b[4], b[5], b[6], b[7]);
    lemma_i32_round_trip(b[8], b[9], b[10], b[11]);
    lemma_u16_round_trip(b[12], b[13]);
    lemma_u16_round_trip(b[14], b[15]);
    lemma_u32_round_trip(b[16], b[17], b[18], b[19]);
    lemma_u32_round_trip(b[20], b[21], b[22], b[23]);
    lemma_i32_round_trip(b[24], b[25], b[26], b[27]);
    lemma_i32_round_trip(b[28], b[29], b[30], b[31]);
    lemma_u32_round_trip(b[32], b[33], b[34], b[35]);
    lemma_u32_round_trip(b[36], b[37], b[38], b[39]);
    assert(header_bytes(spec_header(b)) =~= b.subrange(0, HEADER_SIZE as int));
}

impl HeaderView {
    /// Reinterprets the first [`HEADER_SIZE`] bytes of `block` as a header.
    /// Always succeeds on a long-enough buffer; the caller guarantees the
    /// length.
    pub fn parse(block: &[u8]) -> (r: HeaderView)
        requires
            block@.len() >= HEADER_SIZE,
        ensures
            r == spec_header(block@),
    {
        HeaderView {
            size: read_u32(block, 0),
            width: read_i32(block, 4),
            height: read_i32(block, 8),
            planes: read_u16(block, 12),
            bit_count: read_u16(block, 14),
            compression: read_u32(block, 16),
            size_image: read_u32(block, 20),
            x_ppm: read_i32(block, 24),
            y_ppm: read_i32(block, 28),
            clr_used: read_u32(block, 32),
            clr_important: read_u32(block, 36),
        }
    }

    /// Appends the serialized header to `out`.
    pub fn emit(&self, out: &mut Vec<u8>)
        ensures
            final(out)@ == old(out)@ + header_bytes(*self),
    {
        crate::bytes::push_u32(out, self.size);
        crate::bytes::push_i32(out, self.width);
        crate::bytes::push_i32(out, self.height);
        crate::bytes::push_u16(out, self.planes);
        crate::bytes::push_u16(out, self.bit_count);
        crate::bytes::push_u32(out, self.compression);
        crate::bytes::push_u32(out, self.size_image);
        crate::bytes::push_i32(out, self.x_ppm);
        crate::bytes::push_i32(out, self.y_ppm);
        crate::bytes::push_u32(out, self.clr_used);
        crate::bytes::push_u32(out, self.clr_important);
        assert(out@ =~= old(out)@ + header_bytes(*self));
    }
}

} // verus!
